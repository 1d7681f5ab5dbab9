//! The typed value ADT that crosses the host/guest boundary, and the
//! marshalling rules between it and the engine-native numeric values.
//!
//! Only the numeric variants cross the WebAssembly boundary. The 32-bit and
//! 64-bit float variants carry their IEEE-754 bit patterns, so transport is
//! bit-for-bit and NaN payloads survive a round trip. The richer variants
//! (strings, arrays, objects) exist for future providers and are rejected by
//! the marshaller with actionable guidance.

use vstd::prelude::*;

use crate::errors::ProviderError;

verus! {

/// Unified value type across different runtime environments.
///
/// Equality is structural; composite equality is element-wise in order.
/// Object key order is preserved: an object is an ordered sequence of pairs,
/// not a mapping.
#[derive(Debug)]
pub enum ProviderValue {
    /// Null value.
    Null,
    /// Boolean value.
    Bool(bool),
    /// 32-bit signed integer.
    I32(i32),
    /// 64-bit signed integer.
    I64(i64),
    /// 32-bit float, held as its IEEE-754 bit pattern.
    F32(u32),
    /// 64-bit float, held as its IEEE-754 bit pattern.
    F64(u64),
    /// String value.
    String(String),
    /// Array of values.
    Array(Vec<ProviderValue>),
    /// Object as key-value pairs, in insertion order.
    Object(Vec<(String, ProviderValue)>),
}

/// An engine-native numeric value: exactly what may cross the boundary.
/// The float variants hold IEEE-754 bit patterns.
#[derive(Debug, Clone, Copy, PartialEq, Eq, Structural)]
pub enum WasmVal {
    I32(i32),
    I64(i64),
    F32(u32),
    F64(u64),
}

/// The kind of a value in an exported function's signature. `Other` stands
/// for every non-numeric kind (references, 128-bit vectors), which the
/// marshaller rejects before any call is made.
#[derive(Debug, Clone, Copy, PartialEq, Eq, Structural)]
pub enum WasmValKind {
    I32,
    I64,
    F32,
    F64,
    Other,
}

/// Whether a value is of one of the four numeric variants that may cross
/// the WebAssembly boundary.
pub open spec fn is_numeric(v: ProviderValue) -> bool {
    ||| v is I32
    ||| v is I64
    ||| v is F32
    ||| v is F64
}

/// What marshalling host to guest yields on a numeric value.
pub open spec fn spec_value_to_val(v: ProviderValue) -> Option<WasmVal> {
    match v {
        ProviderValue::I32(i) => Some(WasmVal::I32(i)),
        ProviderValue::I64(i) => Some(WasmVal::I64(i)),
        ProviderValue::F32(bits) => Some(WasmVal::F32(bits)),
        ProviderValue::F64(bits) => Some(WasmVal::F64(bits)),
        _ => None,
    }
}

/// What marshalling guest to host yields.
pub open spec fn spec_val_to_value(w: WasmVal) -> ProviderValue {
    match w {
        WasmVal::I32(i) => ProviderValue::I32(i),
        WasmVal::I64(i) => ProviderValue::I64(i),
        WasmVal::F32(bits) => ProviderValue::F32(bits),
        WasmVal::F64(bits) => ProviderValue::F64(bits),
    }
}

/// The guidance given when a `Null` argument is rejected.
pub open spec fn null_reject_msg() -> Seq<char> {
    "Null type not supported for WASM calls. Use I32(0) if a zero value is needed."@
}

/// The guidance given when a `Bool` argument is rejected.
pub open spec fn bool_reject_msg() -> Seq<char> {
    "Bool type not supported for WASM calls. Convert to I32(0) for false or I32(1) for true."@
}

/// The guidance given when a composite argument is rejected.
pub open spec fn complex_reject_msg() -> Seq<char> {
    "Complex types (String, Array, Object) not supported for WASM calls."@
}

/// The message that rejects an argument, or `None` if it is numeric.
pub open spec fn spec_reject_msg(v: ProviderValue) -> Option<Seq<char>> {
    match v {
        ProviderValue::Null => Some(null_reject_msg()),
        ProviderValue::Bool(_) => Some(bool_reject_msg()),
        ProviderValue::String(_) => Some(complex_reject_msg()),
        ProviderValue::Array(_) => Some(complex_reject_msg()),
        ProviderValue::Object(_) => Some(complex_reject_msg()),
        _ => None,
    }
}

/// Convert a `ProviderValue` to an engine-native value.
///
/// Only the four numeric variants are accepted; every other variant is
/// rejected with guidance on proper usage, and no implicit serialisation
/// takes place.
pub fn provider_value_to_val(value: &ProviderValue) -> (r: Result<WasmVal, ProviderError>)
    ensures
        is_numeric(*value) <==> r is Ok,
        r is Ok ==> Some(r->Ok_0) == spec_value_to_val(*value),
        r is Err ==> (r->Err_0 matches ProviderError::InvocationFailed(m)
            && Some(m@) == spec_reject_msg(*value)),
{
    match value {
        ProviderValue::I32(i) => Ok(WasmVal::I32(*i)),
        ProviderValue::I64(i) => Ok(WasmVal::I64(*i)),
        ProviderValue::F32(bits) => Ok(WasmVal::F32(*bits)),
        ProviderValue::F64(bits) => Ok(WasmVal::F64(*bits)),
        ProviderValue::Null => Err(ProviderError::InvocationFailed(String::from_str(
            "Null type not supported for WASM calls. Use I32(0) if a zero value is needed.",
        ))),
        ProviderValue::Bool(_) => Err(ProviderError::InvocationFailed(String::from_str(
            "Bool type not supported for WASM calls. Convert to I32(0) for false or I32(1) for true.",
        ))),
        ProviderValue::String(_) | ProviderValue::Array(_) | ProviderValue::Object(_) => Err(
            ProviderError::InvocationFailed(String::from_str(
                "Complex types (String, Array, Object) not supported for WASM calls.",
            )),
        ),
    }
}

/// Convert an engine-native value back to a `ProviderValue`.
///
/// Every engine-native numeric value has a host-side rendering, so this
/// direction is total; non-numeric results are rejected by the signature
/// pre-check before any value comes back.
pub fn val_to_provider_value(val: &WasmVal) -> (r: ProviderValue)
    ensures
        r == spec_val_to_value(*val),
        is_numeric(r),
{
    match val {
        WasmVal::I32(i) => ProviderValue::I32(*i),
        WasmVal::I64(i) => ProviderValue::I64(*i),
        WasmVal::F32(bits) => ProviderValue::F32(*bits),
        WasmVal::F64(bits) => ProviderValue::F64(*bits),
    }
}

/// Marshalling is lossless on numeric values: a numeric value that goes out
/// to the guest and comes straight back is unchanged, bit for bit.
pub proof fn lemma_marshal_round_trip(v: ProviderValue)
    requires
        is_numeric(v),
    ensures
        spec_value_to_val(v) is Some,
        spec_val_to_value(spec_value_to_val(v)->Some_0) == v,
{
}

/// The reverse round trip is lossless on every engine-native value.
pub proof fn lemma_unmarshal_round_trip(w: WasmVal)
    ensures
        spec_value_to_val(spec_val_to_value(w)) == Some(w),
{
}

/// The zero value of a numeric kind, used to pre-fill a result buffer of
/// the declared arity before a call.
pub open spec fn spec_zero_val(k: WasmValKind) -> WasmVal
    recommends
        k != WasmValKind::Other,
{
    match k {
        WasmValKind::I64 => WasmVal::I64(0),
        WasmValKind::F32 => WasmVal::F32(0),
        WasmValKind::F64 => WasmVal::F64(0),
        _ => WasmVal::I32(0),
    }
}

/// How a result buffer is rendered for the host: zero results become
/// `Null`, one result becomes that value, several become an `Array` in
/// declaration order.
pub open spec fn is_unmarshalled(results: Seq<WasmVal>, v: ProviderValue) -> bool {
    if results.len() == 0 {
        v == ProviderValue::Null
    } else if results.len() == 1 {
        v == spec_val_to_value(results[0])
    } else {
        &&& v matches ProviderValue::Array(a)
        &&& a@.len() == results.len()
        &&& forall|i: int| 0 <= i < results.len() ==> a@[i] == spec_val_to_value(results[i])
    }
}

/// The shape every successful invocation result has: null, a numeric value,
/// or an array of at least two numeric values.
pub open spec fn is_invoke_result(v: ProviderValue) -> bool {
    ||| v == ProviderValue::Null
    ||| is_numeric(v)
    ||| (v matches ProviderValue::Array(a) && a@.len() >= 2 && forall|i: int|
        0 <= i < a@.len() ==> is_numeric(#[trigger] a@[i]))
}

/// Render a result buffer for the host.
pub fn unmarshal_results(results: &Vec<WasmVal>) -> (r: ProviderValue)
    ensures
        is_unmarshalled(results@, r),
        is_invoke_result(r),
{
    if results.len() == 0 {
        ProviderValue::Null
    } else if results.len() == 1 {
        val_to_provider_value(&results[0])
    } else {
        let mut converted: Vec<ProviderValue> = Vec::new();
        let mut i: usize = 0;
        while i < results.len()
            invariant
                i <= results@.len(),
                converted@.len() == i,
                forall|j: int| 0 <= j < i ==> converted@[j] == spec_val_to_value(results@[j]),
                forall|j: int| 0 <= j < i ==> is_numeric(#[trigger] converted@[j]),
            decreases results@.len() - i,
        {
            converted.push(val_to_provider_value(&results[i]));
            i = i + 1;
        }
        ProviderValue::Array(converted)
    }
}

} // verus!
