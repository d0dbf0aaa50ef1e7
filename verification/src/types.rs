//! The WebAssembly 2.0 type grammar.
use vstd::prelude::*;

verus! {

/// Value types.
#[derive(Clone, Copy, PartialEq, Eq, Debug, Structural)]
pub enum ValType {
    I32,
    I64,
    F32,
    F64,
    V128,
    FuncRef,
    ExternRef,
}

impl ValType {
    /// Whether this is one of the four scalar numeric types.
    pub fn is_num(self) -> (r: bool)
        ensures
            r == (self is I32 || self is I64 || self is F32 || self is F64),
    {
        match self {
            ValType::I32 | ValType::I64 | ValType::F32 | ValType::F64 => true,
            _ => false,
        }
    }

    /// Whether this is a reference type.
    pub fn is_ref(self) -> (r: bool)
        ensures
            r == (self is FuncRef || self is ExternRef),
    {
        match self {
            ValType::FuncRef | ValType::ExternRef => true,
            _ => false,
        }
    }
}

/// Reference types.
#[derive(Clone, Copy, PartialEq, Eq, Debug, Structural)]
pub enum RefType {
    FuncRef,
    ExternRef,
}

/// The value type that a reference type denotes.
pub open spec fn reftype_val(r: RefType) -> ValType {
    match r {
        RefType::FuncRef => ValType::FuncRef,
        RefType::ExternRef => ValType::ExternRef,
    }
}

impl RefType {
    /// The value type of this reference type.
    pub fn val(self) -> (v: ValType)
        ensures
            v == reftype_val(self),
            v is FuncRef || v is ExternRef,
    {
        match self {
            RefType::FuncRef => ValType::FuncRef,
            RefType::ExternRef => ValType::ExternRef,
        }
    }
}

impl From<RefType> for ValType {
    fn from(r: RefType) -> (v: ValType) {
        r.val()
    }
}

impl vstd::std_specs::convert::FromSpecImpl<RefType> for ValType {
    open spec fn obeys_from_spec() -> bool {
        true
    }

    open spec fn from_spec(r: RefType) -> ValType {
        reftype_val(r)
    }
}

/// A function type: parameter and result vectors.
#[derive(Clone, PartialEq, Eq, Debug, Default)]
pub struct FuncType {
    pub params: Vec<ValType>,
    pub results: Vec<ValType>,
}

impl FuncType {
    /// Structural equality of two function types.
    pub fn same(&self, other: &FuncType) -> (r: bool)
        ensures
            r == (self.params@ == other.params@ && self.results@ == other.results@),
    {
        vals_eq(self.params.as_slice(), other.params.as_slice()) && vals_eq(
            self.results.as_slice(),
            other.results.as_slice(),
        )
    }

    /// A copy of this function type with the same parameters and results.
    pub fn copy(&self) -> (r: FuncType)
        ensures
            r.params@ == self.params@,
            r.results@ == self.results@,
    {
        FuncType { params: copy_vals(self.params.as_slice()), results: copy_vals(self.results.as_slice()) }
    }
}

/// Element-wise equality of two value-type sequences.
pub fn vals_eq(a: &[ValType], b: &[ValType]) -> (r: bool)
    ensures
        r == (a@ == b@),
{
    if a.len() != b.len() {
        return false;
    }
    let mut i: usize = 0;
    while i < a.len()
        invariant
            i <= a.len(),
            a.len() == b.len(),
            forall|j: int| 0 <= j < i ==> a@[j] == b@[j],
        decreases a.len() - i,
    {
        if a[i] != b[i] {
            return false;
        }
        i = i + 1;
    }
    assert(a@ =~= b@);
    true
}

/// A fresh vector holding the given value types.
pub fn copy_vals(a: &[ValType]) -> (r: Vec<ValType>)
    ensures
        r@ == a@,
{
    let mut out: Vec<ValType> = Vec::new();
    let mut i: usize = 0;
    while i < a.len()
        invariant
            i <= a.len(),
            out@ == a@.take(i as int),
        decreases a.len() - i,
    {
        out.push(a[i]);
        i = i + 1;
        assert(out@ =~= a@.take(i as int));
    }
    assert(a@.take(a.len() as int) =~= a@);
    out
}

/// Size limits of tables and memories.
#[derive(Clone, Copy, PartialEq, Eq, Debug, Structural)]
pub struct Limits {
    pub min: u32,
    pub max: Option<u32>,
}

/// Table types.
#[derive(Clone, Copy, PartialEq, Eq, Debug, Structural)]
pub struct TableType {
    pub elem: RefType,
    pub limits: Limits,
}

/// Memory types.
#[derive(Clone, Copy, PartialEq, Eq, Debug, Structural)]
pub struct MemType {
    pub limits: Limits,
}

/// Global types.
#[derive(Clone, Copy, PartialEq, Eq, Debug, Structural)]
pub struct GlobalType {
    pub val: ValType,
    pub mutable: bool,
}

/// External types.
#[derive(Clone, PartialEq, Eq, Debug)]
pub enum ExternType {
    Func(FuncType),
    Table(TableType),
    Mem(MemType),
    Global(GlobalType),
}

} // verus!
