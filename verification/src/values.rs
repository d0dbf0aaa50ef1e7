//! Runtime values. Floats are carried as raw bit patterns so that NaN
//! payloads survive loads, stores and locals exactly.
use vstd::prelude::*;
use crate::types::{RefType, ValType, reftype_val};

verus! {

#[derive(Clone, Copy, PartialEq, Eq, Debug, Structural)]
pub enum Value {
    I32(u32),
    I64(u64),
    /// f32 as raw bits.
    F32(u32),
    /// f64 as raw bits.
    F64(u64),
    /// v128 as 16 little-endian bytes.
    V128(u128),
    /// Function reference: store-level function address, or null.
    FuncRef(Option<u32>),
    /// Extern reference: host-provided identity, or null.
    ExternRef(Option<u32>),
}

/// The type of a value.
pub open spec fn value_type(v: Value) -> ValType {
    match v {
        Value::I32(_) => ValType::I32,
        Value::I64(_) => ValType::I64,
        Value::F32(_) => ValType::F32,
        Value::F64(_) => ValType::F64,
        Value::V128(_) => ValType::V128,
        Value::FuncRef(_) => ValType::FuncRef,
        Value::ExternRef(_) => ValType::ExternRef,
    }
}

/// The zero value of a type (null for references).
pub open spec fn default_value(t: ValType) -> Value {
    match t {
        ValType::I32 => Value::I32(0),
        ValType::I64 => Value::I64(0),
        ValType::F32 => Value::F32(0),
        ValType::F64 => Value::F64(0),
        ValType::V128 => Value::V128(0),
        ValType::FuncRef => Value::FuncRef(None),
        ValType::ExternRef => Value::ExternRef(None),
    }
}

/// The null reference of a reference type.
pub open spec fn null_value(t: RefType) -> Value {
    match t {
        RefType::FuncRef => Value::FuncRef(None),
        RefType::ExternRef => Value::ExternRef(None),
    }
}

impl Value {
    pub fn ty(&self) -> (t: ValType)
        ensures
            t == value_type(*self),
    {
        match self {
            Value::I32(_) => ValType::I32,
            Value::I64(_) => ValType::I64,
            Value::F32(_) => ValType::F32,
            Value::F64(_) => ValType::F64,
            Value::V128(_) => ValType::V128,
            Value::FuncRef(_) => ValType::FuncRef,
            Value::ExternRef(_) => ValType::ExternRef,
        }
    }

    pub fn default_for(ty: ValType) -> (v: Value)
        ensures
            v == default_value(ty),
            value_type(v) == ty,
    {
        match ty {
            ValType::I32 => Value::I32(0),
            ValType::I64 => Value::I64(0),
            ValType::F32 => Value::F32(0),
            ValType::F64 => Value::F64(0),
            ValType::V128 => Value::V128(0),
            ValType::FuncRef => Value::FuncRef(None),
            ValType::ExternRef => Value::ExternRef(None),
        }
    }

    pub fn null_of(t: RefType) -> (v: Value)
        ensures
            v == null_value(t),
            value_type(v) == reftype_val(t),
    {
        match t {
            RefType::FuncRef => Value::FuncRef(None),
            RefType::ExternRef => Value::ExternRef(None),
        }
    }
}

/// The default value of every type has that type.
pub proof fn lemma_default_has_type(t: ValType)
    ensures
        value_type(default_value(t)) == t,
{
}

/// The null value of a reference type has that type and is a null reference.
pub proof fn lemma_null_has_type(t: RefType)
    ensures
        value_type(null_value(t)) == reftype_val(t),
        null_value(t) == default_value(reftype_val(t)),
{
}

} // verus!
