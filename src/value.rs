//! WebAssembly values and their boxed 64-bit form for the host calling convention.
use crate::exception::Error;
use vstd::prelude::*;

verus! {

/// The type of a WebAssembly value.
#[derive(Debug, Clone, Copy, PartialEq, Eq, Structural)]
pub enum ValueType {
    I32,
    I64,
    F32,
    F64,
}

/// A WebAssembly value. Floats are held as their IEEE-754 bit patterns.
#[derive(Debug, Clone, Copy, PartialEq, Eq, Structural)]
pub enum WasmValue {
    I32(i32),
    I64(i64),
    F32(u32),
    F64(u64),
}

/// The type that the host tag `tag` stands for.
pub open spec fn tag_type(tag: i32) -> Option<ValueType> {
    if tag == 1 {
        Some(ValueType::I32)
    } else if tag == 2 {
        Some(ValueType::I64)
    } else if tag == 3 {
        Some(ValueType::F32)
    } else if tag == 4 {
        Some(ValueType::F64)
    } else {
        None
    }
}

/// The type of a value.
pub open spec fn type_of(v: WasmValue) -> ValueType {
    match v {
        WasmValue::I32(_) => ValueType::I32,
        WasmValue::I64(_) => ValueType::I64,
        WasmValue::F32(_) => ValueType::F32,
        WasmValue::F64(_) => ValueType::F64,
    }
}

/// The boxed slot of a value: integers sign-extended, float bit patterns
/// zero-extended.
pub open spec fn boxed(v: WasmValue) -> i64 {
    match v {
        WasmValue::I32(x) => x as i64,
        WasmValue::I64(x) => x,
        WasmValue::F32(b) => b as i64,
        WasmValue::F64(b) => b as i64,
    }
}

/// The value of type `t` that a boxed slot holds: its low bits, reinterpreted.
pub open spec fn unboxed(t: ValueType, slot: i64) -> WasmValue {
    match t {
        ValueType::I32 => WasmValue::I32(slot as i32),
        ValueType::I64 => WasmValue::I64(slot),
        ValueType::F32 => WasmValue::F32(slot as u32),
        ValueType::F64 => WasmValue::F64(slot as u64),
    }
}

/// Whether `i` is the first position where `values` does not have the type
/// that `types` declares.
pub open spec fn is_first_mismatch(types: Seq<ValueType>, values: Seq<WasmValue>, i: int) -> bool {
    0 <= i < values.len() && type_of(values[i]) != types[i] && forall|j: int|
        0 <= j < i ==> type_of(#[trigger] values[j]) == types[j]
}

/// Whether every value has the type declared at its position.
pub open spec fn well_typed(types: Seq<ValueType>, values: Seq<WasmValue>) -> bool {
    types.len() == values.len() && forall|i: int|
        0 <= i < values.len() ==> type_of(#[trigger] values[i]) == types[i]
}

/// The type of a host tag; unknown tags are an error.
pub fn value_type_from_tag(tag: i32) -> (r: Result<ValueType, Error>)
    ensures
        tag_type(tag) matches Some(t) ==> r == Ok::<ValueType, Error>(t),
        tag_type(tag) is None ==> r == Err::<ValueType, Error>(Error::UnknownValueType(tag)),
{
    match tag {
        1 => Ok(ValueType::I32),
        2 => Ok(ValueType::I64),
        3 => Ok(ValueType::F32),
        4 => Ok(ValueType::F64),
        _ => Err(Error::UnknownValueType(tag)),
    }
}

/// Boxes one value into its 64-bit slot.
pub fn box_value(v: WasmValue) -> (r: i64)
    ensures
        r == boxed(v),
{
    match v {
        WasmValue::I32(x) => x as i64,
        WasmValue::I64(x) => x,
        WasmValue::F32(b) => b as i64,
        WasmValue::F64(b) => b as i64,
    }
}

/// Reads a slot back as a value of type `t`.
pub fn unbox_value(t: ValueType, slot: i64) -> (r: WasmValue)
    ensures
        r == unboxed(t, slot),
{
    match t {
        ValueType::I32 => WasmValue::I32(slot as i32),
        ValueType::I64 => WasmValue::I64(slot),
        ValueType::F32 => WasmValue::F32(slot as u32),
        ValueType::F64 => WasmValue::F64(slot as u64),
    }
}

/// Unboxing the slot of a value at its own type gives the value back, bit for bit.
pub proof fn lemma_box_round_trip(v: WasmValue)
    ensures
        unboxed(type_of(v), boxed(v)) == v,
{
    match v {
        WasmValue::I32(x) => {
            assert((x as i64) as i32 == x) by (bit_vector);
        },
        WasmValue::I64(x) => {},
        WasmValue::F32(b) => {
            assert((b as i64) as u32 == b) by (bit_vector);
        },
        WasmValue::F64(b) => {
            assert((b as i64) as u64 == b) by (bit_vector);
        },
    }
}

/// The slots of `values`, position by position.
pub open spec fn boxed_all(values: Seq<WasmValue>) -> Seq<i64> {
    values.map_values(|v: WasmValue| boxed(v))
}

/// The values of the declared types that `slots` hold, position by position.
pub open spec fn unboxed_all(types: Seq<ValueType>, slots: Seq<i64>) -> Seq<WasmValue> {
    Seq::new(slots.len(), |i: int| unboxed(types[i], slots[i]))
}

/// Checks `args` against the declared parameter types and boxes them for the host.
pub fn pack_args(params: &Vec<ValueType>, args: &Vec<WasmValue>) -> (r: Result<Vec<i64>, Error>)
    ensures
        args.len() != params.len() ==> r == Err::<Vec<i64>, Error>(
            Error::ArityMismatch { declared: params.len(), actual: args.len() },
        ),
        well_typed(params@, args@) ==> (r matches Ok(slots) && slots@ == boxed_all(args@)),
        forall|i: int|
            args.len() == params.len() && is_first_mismatch(params@, args@, i) ==> r
                == Err::<Vec<i64>, Error>(
                Error::TypeMismatch {
                    position: i as usize,
                    expected: params@[i],
                    found: type_of(args@[i]),
                },
            ),
{
    if args.len() != params.len() {
        return Err(Error::ArityMismatch { declared: params.len(), actual: args.len() });
    }
    let mut slots: Vec<i64> = Vec::new();
    let mut i: usize = 0;
    while i < args.len()
        invariant
            args.len() == params.len(),
            i <= args.len(),
            slots@ == boxed_all(args@.take(i as int)),
            forall|j: int| 0 <= j < i ==> type_of(#[trigger] args@[j]) == params@[j],
        decreases args.len() - i,
    {
        let arg = args[i];
        let found = type_of_value(arg);
        if found != params[i] {
            proof {
                assert forall|k: int| is_first_mismatch(params@, args@, k) implies k == i by {
                    if k < i {
                    } else if k > i {
                        assert(type_of(args@[i as int]) == params@[i as int]);
                    }
                }
            }
            return Err(Error::TypeMismatch { position: i, expected: params[i], found });
        }
        slots.push(box_value(arg));
        i = i + 1;
        proof {
            assert(args@.take(i as int) =~= args@.take(i - 1).push(arg));
        }
    }
    assert(args@.take(i as int) =~= args@);
    proof {
        assert forall|k: int| !is_first_mismatch(params@, args@, k) by {}
    }
    Ok(slots)
}

/// Reads the host's slots back as values of the declared return types.
pub fn unpack_results(results: &Vec<ValueType>, slots: &Vec<i64>) -> (r: Result<
    Vec<WasmValue>,
    Error,
>)
    ensures
        slots.len() != results.len() ==> r == Err::<Vec<WasmValue>, Error>(
            Error::ArityMismatch { declared: results.len(), actual: slots.len() },
        ),
        slots.len() == results.len() ==> (r matches Ok(values) && values@ == unboxed_all(
            results@,
            slots@,
        )),
{
    if slots.len() != results.len() {
        return Err(Error::ArityMismatch { declared: results.len(), actual: slots.len() });
    }
    let mut values: Vec<WasmValue> = Vec::new();
    let mut i: usize = 0;
    while i < slots.len()
        invariant
            slots.len() == results.len(),
            i <= slots.len(),
            values@ =~= unboxed_all(results@, slots@).take(i as int),
        decreases slots.len() - i,
    {
        values.push(unbox_value(results[i], slots[i]));
        i = i + 1;
    }
    Ok(values)
}

/// The type of a value.
pub fn type_of_value(v: WasmValue) -> (r: ValueType)
    ensures
        r == type_of(v),
{
    match v {
        WasmValue::I32(_) => ValueType::I32,
        WasmValue::I64(_) => ValueType::I64,
        WasmValue::F32(_) => ValueType::F32,
        WasmValue::F64(_) => ValueType::F64,
    }
}

/// Boxing well-typed values and reading the slots back at the same types
/// gives the values back, bit for bit.
pub proof fn lemma_pack_unpack_round_trip(types: Seq<ValueType>, values: Seq<WasmValue>)
    requires
        well_typed(types, values),
    ensures
        unboxed_all(types, boxed_all(values)) == values,
{
    assert forall|i: int| 0 <= i < values.len() implies #[trigger] unboxed_all(
        types,
        boxed_all(values),
    )[i] == values[i] by {
        lemma_box_round_trip(values[i]);
    }
    assert(unboxed_all(types, boxed_all(values)) =~= values);
}

} // verus!
