//! Store: runtime instances of modules and host modules, instantiation
//! per the wg-2.0 semantics (import matching, global init evaluation,
//! in-order active segment application with partial effects, start).
use vstd::prelude::*;
use std::rc::Rc;
use crate::error::{InstError, InvokeError, Trap};
use crate::module::{Code, ConstExpr, DataMode, ElemMode, ExportDesc, ImportDesc, Instr, Module, module_is_empty};
use crate::text::{join, join3, text, with_dec};
use crate::exec::{Machine, invoke, overwrite};
use crate::validate::{import_funcs, import_globals, import_mems, import_tables};
use crate::types::{FuncType, GlobalType, Limits, MemType, RefType, TableType, ValType};
use crate::values::{Value, null_value, value_type};

verus! {

pub type InstanceId = usize;

/// A store address of an exported or imported entity.
#[derive(Clone, Copy, Debug, PartialEq, Eq, Structural)]
pub enum ExternVal {
    Func(usize),
    Table(usize),
    Mem(usize),
    Global(usize),
}

/// Description of a host-provided module (e.g. spectest). The host code of
/// each function stays with the embedder: function `k` added by the store
/// (counting over all host modules, in order) is called with host id `k`.
pub struct HostModule {
    pub funcs: Vec<(String, FuncType)>,
    pub globals: Vec<(String, GlobalType, Value)>,
    pub tables: Vec<(String, TableType)>,
    pub mems: Vec<(String, MemType)>,
}

/// A function instance.
pub enum FuncInst {
    /// Provided by the embedder; `id` numbers the host functions in the
    /// order they were added.
    Host { ty: FuncType, id: usize },
    Wasm { ty: FuncType, inst: InstanceId, code: Rc<Code> },
}

impl FuncInst {
    pub open spec fn func_type(&self) -> FuncType {
        match self {
            FuncInst::Host { ty, .. } => *ty,
            FuncInst::Wasm { ty, .. } => *ty,
        }
    }

    pub fn ty(&self) -> (r: &FuncType)
        ensures
            *r == self.func_type(),
    {
        match self {
            FuncInst::Host { ty, .. } => ty,
            FuncInst::Wasm { ty, .. } => ty,
        }
    }
}

pub struct TableInst {
    pub ty: TableType,
    pub elems: Vec<Value>,
}

pub struct MemInst {
    pub ty: MemType,
    pub data: Vec<u8>,
}

pub struct GlobalInst {
    pub ty: GlobalType,
    pub val: Value,
}

/// Per-instance element segment contents (droppable).
pub struct ElemInst {
    pub elems: Vec<Value>,
}

/// Per-instance data segment contents (droppable).
pub struct DataInst {
    pub bytes: Vec<u8>,
}

pub struct Instance {
    pub exports: Vec<(String, ExternVal)>,
    pub types: Vec<FuncType>,
    pub func_addrs: Vec<usize>,
    pub table_addrs: Vec<usize>,
    pub mem_addrs: Vec<usize>,
    pub global_addrs: Vec<usize>,
    pub elems: Vec<ElemInst>,
    pub datas: Vec<DataInst>,
}

impl Instance {
    pub fn empty() -> (r: Instance)
        ensures
            r.exports@.len() == 0,
            r.types@.len() == 0,
            r.func_addrs@.len() == 0,
            r.table_addrs@.len() == 0,
            r.mem_addrs@.len() == 0,
            r.global_addrs@.len() == 0,
            r.elems@.len() == 0,
            r.datas@.len() == 0,
    {
        Instance {
            exports: Vec::new(),
            types: Vec::new(),
            func_addrs: Vec::new(),
            table_addrs: Vec::new(),
            mem_addrs: Vec::new(),
            global_addrs: Vec::new(),
            elems: Vec::new(),
            datas: Vec::new(),
        }
    }
}

pub struct Store {
    pub funcs: Vec<FuncInst>,
    pub tables: Vec<TableInst>,
    pub mems: Vec<MemInst>,
    pub globals: Vec<GlobalInst>,
    pub instances: Vec<Instance>,
    /// Number of host functions added so far.
    pub host_funcs: usize,
}

pub const PAGE_SIZE: usize = 65536;

pub const MAX_PAGES: u32 = 65536;

/// Implementation limit on table element counts (the spec permits
/// allocation failure); keeps a 2^32-min table from exhausting the host.
pub const TABLE_IMPL_LIMIT: u64 = 134217728;

/// Whether host module `desc` can be added to a store that will then hold
/// `nfuncs` functions: each global's value has its declared type (a
/// function reference naming one of those functions), each table's size
/// is within the implementation limit, and each memory's size is
/// addressable.
pub open spec fn host_desc_ok(nfuncs: nat, desc: HostModule) -> bool {
    &&& forall|k: int| 0 <= k < desc.globals@.len() ==> #[trigger] host_global_ok(nfuncs, desc.globals@[k])
    &&& forall|k: int| 0 <= k < desc.tables@.len() ==> (#[trigger] desc.tables@[k]).1.limits.min <= TABLE_IMPL_LIMIT
    &&& forall|k: int| 0 <= k < desc.mems@.len() ==> (#[trigger] desc.mems@[k]).1.limits.min * 65536 <= usize::MAX
}

/// Whether a host global's value has its declared type and, as a function
/// reference, names one of `nfuncs` functions.
pub open spec fn host_global_ok(nfuncs: nat, g: (String, GlobalType, Value)) -> bool {
    &&& value_type(g.2) == g.1.val
    &&& g.2 matches Value::FuncRef(Some(a)) ==> a < nfuncs
}

/// Whether `m` is the message for a host table or memory of `desc` whose
/// storage the allocator refused.
pub open spec fn allocation_refused(desc: HostModule, m: Seq<char>) -> bool {
    ||| exists|k: int| 0 <= k < desc.tables@.len() && m == "host table "@ + (#[trigger] desc.tables@[k]).0@ + ": cannot allocate"@
    ||| exists|k: int| 0 <= k < desc.mems@.len() && m == "host memory "@ + (#[trigger] desc.mems@[k]).0@ + ": cannot allocate"@
}

/// Whether the store entity `ev` satisfies the import declaration `desc`
/// of `module`: it exists in `s`, is of the declared kind, and its type
/// matches (tables and memories by their current size and maximum).
pub open spec fn import_fits(s: Store, module: Module, desc: ImportDesc, ev: ExternVal) -> bool {
    match (desc, ev) {
        (ImportDesc::Func(tidx), ExternVal::Func(a)) => {
            &&& a < s.funcs@.len()
            &&& tidx < module.types@.len()
            &&& s.funcs@[a as int].func_type().params@ == module.types@[tidx as int].params@
            &&& s.funcs@[a as int].func_type().results@ == module.types@[tidx as int].results@
        },
        (ImportDesc::Table(want), ExternVal::Table(a)) => {
            &&& a < s.tables@.len()
            &&& s.tables@[a as int].elems@.len() <= u32::MAX
            &&& s.tables@[a as int].ty.elem == want.elem
            &&& limits_fit(
                Limits { min: s.tables@[a as int].elems@.len() as u32, max: s.tables@[a as int].ty.limits.max },
                want.limits,
            )
        },
        (ImportDesc::Mem(want), ExternVal::Mem(a)) => {
            &&& a < s.mems@.len()
            &&& s.mems@[a as int].data@.len() / 65536 <= u32::MAX
            &&& limits_fit(
                Limits { min: (s.mems@[a as int].data@.len() / 65536) as u32, max: s.mems@[a as int].ty.limits.max },
                want.limits,
            )
        },
        (ImportDesc::Global(want), ExternVal::Global(a)) => a < s.globals@.len() && s.globals@[a as int].ty == want,
        _ => false,
    }
}

/// Whether import `k` of `module` is the first that does not fit and was
/// not resolved at all.
pub open spec fn import_missing(s: Store, module: Module, imports: Seq<Option<ExternVal>>, k: int) -> bool {
    &&& 0 <= k < module.imports@.len()
    &&& forall|j: int| 0 <= j < k ==> #[trigger] import_resolved(s, module, imports, j)
    &&& (k >= imports.len() || imports[k] is None)
}

/// Whether no import of `module` is left unresolved before a failing one.
pub open spec fn no_import_missing(s: Store, module: Module, imports: Seq<Option<ExternVal>>) -> bool {
    forall|k: int| !#[trigger] import_missing(s, module, imports, k)
}

/// Whether import `k` of `module` was resolved to an entity that fits it.
pub open spec fn import_resolved(s: Store, module: Module, imports: Seq<Option<ExternVal>>, k: int) -> bool {
    &&& k < imports.len()
    &&& match imports[k] {
        Some(ev) => import_fits(s, module, module.imports@[k].desc, ev),
        None => false,
    }
}

/// Byte size of `pages` memory pages, when it is addressable.
pub fn mem_bytes(pages: u32) -> (r: Option<usize>)
    ensures
        pages * 65536 <= usize::MAX ==> r == Some((pages * 65536) as usize),
        pages * 65536 > usize::MAX ==> r is None,
{
    let b: u64 = (pages as u64) * 65536;
    if (b as u128) <= (usize::MAX as u128) {
        Some(b as usize)
    } else {
        None
    }
}

/// Import limits matching: candidate {n1,m1} matches required {n2,m2}
/// iff n1 >= n2 and (m2 = none or m1 <= m2).
pub open spec fn limits_fit(have: Limits, want: Limits) -> bool {
    &&& have.min >= want.min
    &&& match want.max {
        None => true,
        Some(wm) => match have.max {
            Some(hm) => hm <= wm,
            None => false,
        },
    }
}

pub fn limits_match(have: &Limits, want: &Limits) -> (r: bool)
    ensures
        r == limits_fit(*have, *want),
{
    if have.min < want.min {
        return false;
    }
    match want.max {
        None => true,
        Some(wm) => match have.max {
            Some(hm) => hm <= wm,
            None => false,
        },
    }
}

/// The sizes that limits allow: at least the minimum and, where there is a
/// maximum, at most it.
pub open spec fn size_allowed(l: Limits, n: nat) -> bool {
    l.min <= n && (l.max is Some ==> n <= l.max.unwrap())
}

/// Limits matching is inclusion: limits `have` (whose maximum, if any, is
/// not below their minimum) match `want` exactly when every size `have`
/// allows is one that `want` allows.
pub proof fn lemma_limits_fit_is_inclusion(have: Limits, want: Limits)
    requires
        have.max is Some ==> have.min <= have.max.unwrap(),
    ensures
        limits_fit(have, want) <==> forall|n: nat| #[trigger] size_allowed(have, n) ==> size_allowed(want, n),
{
    if forall|n: nat| #[trigger] size_allowed(have, n) ==> size_allowed(want, n) {
        assert(size_allowed(have, have.min as nat));
        match want.max {
            None => {},
            Some(wm) => {
                match have.max {
                    Some(hm) => {
                        assert(size_allowed(have, hm as nat));
                    },
                    None => {
                        let big: nat = wm as nat + have.min as nat + 1;
                        assert(size_allowed(have, big));
                    },
                }
            },
        }
    }
}

/// A memory import fits exactly when the provided memory has at least the
/// declared minimum of pages now and, where the declaration has a maximum,
/// the provided memory has a maximum that is no larger.
pub proof fn lemma_memory_import_fits(s: Store, module: Module, want: MemType, a: usize)
    requires
        a < s.mems@.len(),
        s.mems@[a as int].data@.len() / 65536 <= u32::MAX,
    ensures
        import_fits(s, module, ImportDesc::Mem(want), ExternVal::Mem(a)) <==> (s.mems@[a as int].data@.len() / 65536
            >= want.limits.min && (want.limits.max is Some ==> s.mems@[a as int].ty.limits.max is Some
            && s.mems@[a as int].ty.limits.max.unwrap() <= want.limits.max.unwrap())),
{
}

/// A table import fits exactly when the provided table holds references of
/// the declared kind, has at least the declared minimum of elements now
/// and, where the declaration has a maximum, has a maximum that is no larger.
pub proof fn lemma_table_import_fits(s: Store, module: Module, want: TableType, a: usize)
    requires
        a < s.tables@.len(),
        s.tables@[a as int].elems@.len() <= u32::MAX,
    ensures
        import_fits(s, module, ImportDesc::Table(want), ExternVal::Table(a)) <==> (s.tables@[a as int].ty.elem
            == want.elem && s.tables@[a as int].elems@.len() >= want.limits.min && (want.limits.max is Some
            ==> s.tables@[a as int].ty.limits.max is Some && s.tables@[a as int].ty.limits.max.unwrap()
            <= want.limits.max.unwrap())),
{
}

/// A function import fits exactly when the provided function exists and
/// has the declared type: the same parameters and the same results.
pub proof fn lemma_function_import_fits(s: Store, module: Module, tidx: u32, a: usize)
    requires
        a < s.funcs@.len(),
        tidx < module.types@.len(),
    ensures
        import_fits(s, module, ImportDesc::Func(tidx), ExternVal::Func(a)) <==> (s.funcs@[a as int].func_type().params@
            == module.types@[tidx as int].params@ && s.funcs@[a as int].func_type().results@
            == module.types@[tidx as int].results@),
        !import_fits(s, module, ImportDesc::Func(tidx), ExternVal::Global(a)),
        !import_fits(s, module, ImportDesc::Func(tidx), ExternVal::Mem(a)),
        !import_fits(s, module, ImportDesc::Func(tidx), ExternVal::Table(a)),
{
}

/// A global import fits exactly when the provided global has the declared
/// type, mutability included.
pub proof fn lemma_global_import_fits(s: Store, module: Module, want: GlobalType, a: usize)
    requires
        a < s.globals@.len(),
    ensures
        import_fits(s, module, ImportDesc::Global(want), ExternVal::Global(a)) <==> s.globals@[a as int].ty == want,
        !import_fits(s, module, ImportDesc::Global(want), ExternVal::Func(a)),
{
}

/// Every limits value matches itself.
pub proof fn lemma_limits_reflexive(l: Limits)
    ensures
        limits_fit(l, l),
{
}

/// Limits matching is transitive: a candidate that matches a tighter
/// requirement matches every looser one.
pub proof fn lemma_limits_transitive(a: Limits, b: Limits, c: Limits)
    requires
        limits_fit(a, b),
        limits_fit(b, c),
    ensures
        limits_fit(a, c),
{
}


/// The name `derive(Debug)` gives a value type.
pub open spec fn valtype_text(t: ValType) -> Seq<char> {
    match t {
        ValType::I32 => "I32"@,
        ValType::I64 => "I64"@,
        ValType::F32 => "F32"@,
        ValType::F64 => "F64"@,
        ValType::V128 => "V128"@,
        ValType::FuncRef => "FuncRef"@,
        ValType::ExternRef => "ExternRef"@,
    }
}

pub fn valtype_name(t: ValType) -> (r: &'static str)
    ensures
        r@ == valtype_text(t),
{
    match t {
        ValType::I32 => "I32",
        ValType::I64 => "I64",
        ValType::F32 => "F32",
        ValType::F64 => "F64",
        ValType::V128 => "V128",
        ValType::FuncRef => "FuncRef",
        ValType::ExternRef => "ExternRef",
    }
}

/// The value a constant instruction pushes, when it is one (`None` for
/// `end`, `Some(None)` for an instruction a constant expression cannot hold
/// or an index past the instance).
pub open spec fn const_instr_value(globals: Seq<GlobalInst>, inst: Instance, i: Instr) -> Option<Option<Value>> {
    match i {
        Instr::I32Const(v) => Some(Some(Value::I32(v))),
        Instr::I64Const(v) => Some(Some(Value::I64(v))),
        Instr::F32Const(v) => Some(Some(Value::F32(v))),
        Instr::F64Const(v) => Some(Some(Value::F64(v))),
        Instr::V128Const(v) => Some(Some(Value::V128(v))),
        Instr::RefNull(t) => Some(Some(crate::values::null_value(t))),
        Instr::RefFunc { func } => if func < inst.func_addrs@.len() && inst.func_addrs@[func as int] <= u32::MAX {
            Some(Some(Value::FuncRef(Some(inst.func_addrs@[func as int] as u32))))
        } else {
            Some(None)
        },
        Instr::GlobalGet { idx } => if idx < inst.global_addrs@.len() && inst.global_addrs@[idx as int] < globals.len() {
            Some(Some(globals[inst.global_addrs@[idx as int] as int].val))
        } else {
            Some(None)
        },
        Instr::End => None,
        _ => Some(None),
    }
}

/// The value of a constant expression: the value of its last pushing
/// instruction, provided every instruction is a valid constant one.
pub open spec fn const_result(globals: Seq<GlobalInst>, inst: Instance, instrs: Seq<Instr>) -> Option<Value>
    decreases instrs.len(),
{
    if instrs.len() == 0 {
        None
    } else {
        let rest = const_result(globals, inst, instrs.drop_last());
        match const_instr_value(globals, inst, instrs.last()) {
            None => rest,
            Some(None) => None,
            Some(Some(v)) => if const_ok(globals, inst, instrs.drop_last()) { Some(v) } else { None },
        }
    }
}

/// Whether every instruction of `instrs` may stand in a constant expression.
pub open spec fn const_ok(globals: Seq<GlobalInst>, inst: Instance, instrs: Seq<Instr>) -> bool {
    forall|k: int| 0 <= k < instrs.len() ==> !(#[trigger] const_instr_value(globals, inst, instrs[k]) matches Some(None))
}

/// A constant expression of `module` that is one literal value, or one
/// read of an imported global, and its `end`.
pub open spec fn simple_init(module: Module, instrs: Seq<Instr>) -> bool {
    &&& instrs.len() == 2
    &&& instrs[1] is End
    &&& (instrs[0] is I32Const || instrs[0] is I64Const || instrs[0] is F32Const || instrs[0] is F64Const
        || instrs[0] is V128Const || instrs[0] is RefNull || (instrs[0] matches Instr::GlobalGet { idx }
        && idx < import_globals(module.imports@).len()))
}

/// A module without segments whose own items can all be made: every
/// function has code and a known type, every global is initialized by a
/// literal or an imported global, tables and memories are within the implementation limits, and
/// exports and the start function name items of its index spaces.
pub open spec fn simple_module(module: Module) -> bool {
    &&& forall|k: int| 0 <= k < module.tables@.len() ==> (#[trigger] module.tables@[k]).limits.min <= TABLE_IMPL_LIMIT
    &&& forall|k: int| 0 <= k < module.mems@.len() ==> (#[trigger] module.mems@[k]).limits.min * 65536 <= usize::MAX
    &&& module.elems@.len() == 0
    &&& module.datas@.len() == 0
    &&& module.codes@.len() >= module.funcs@.len()
    &&& forall|k: int| 0 <= k < module.funcs@.len() ==> (#[trigger] module.funcs@[k]) < module.types@.len()
    &&& forall|k: int| 0 <= k < module.globals@.len() ==> simple_init(module, (#[trigger] module.globals@[k]).init.instrs@)
    &&& forall|k: int| 0 <= k < module.exports@.len() ==> in_index_space(module, (#[trigger] module.exports@[k]).desc)
    &&& (module.start matches Some(f) ==> f < import_funcs(module.imports@).len() + module.funcs@.len())
}

/// Whether an export names an item of the module's index spaces (imports
/// first, then its own items).
pub open spec fn in_index_space(module: Module, desc: ExportDesc) -> bool {
    match desc {
        ExportDesc::Func(k) => k < import_funcs(module.imports@).len() + module.funcs@.len(),
        ExportDesc::Table(k) => k < import_tables(module.imports@).len() + module.tables@.len(),
        ExportDesc::Mem(k) => k < import_mems(module.imports@).len() + module.mems@.len(),
        ExportDesc::Global(k) => k < import_globals(module.imports@).len() + module.globals@.len(),
    }
}

/// Whether every import of `module` was resolved to an entity that fits it.
pub open spec fn all_imports_resolved(s: Store, module: Module, imports: Seq<Option<ExternVal>>) -> bool {
    forall|k: int| 0 <= k < module.imports@.len() ==> #[trigger] import_resolved(s, module, imports, k)
}

/// The result of a successful instantiation: the new instance and the
/// store address of its start function, which the embedder runs next.
pub struct Instantiated {
    pub id: InstanceId,
    pub start: Option<usize>,
}

/// A fresh copy of a list of function types.
fn copy_types(ts: &Vec<FuncType>) -> (r: Vec<FuncType>)
    ensures
        r@.len() == ts@.len(),
        forall|i: int| 0 <= i < ts@.len() ==> #[trigger] r@[i].params@ == ts@[i].params@ && r@[i].results@ == ts@[i].results@,
{
    let mut out: Vec<FuncType> = Vec::new();
    let mut i: usize = 0;
    while i < ts.len()
        invariant
            i <= ts@.len(),
            out@.len() == i,
            forall|j: int| 0 <= j < i ==> #[trigger] out@[j].params@ == ts@[j].params@ && out@[j].results@ == ts@[j].results@,
        decreases ts@.len() - i,
    {
        out.push(ts[i].copy());
        i = i + 1;
    }
    out
}

/// Why `args` do not fit parameter types `params`, if they do not.
pub fn args_mismatch(args: &[Value], params: &[ValType]) -> (r: Option<String>)
    ensures
        r is None <==> (args@.len() == params@.len() && forall|k: int| 0 <= k < args@.len() ==> value_type(#[trigger] args@[k]) == params@[k]),
{
    if args.len() != params.len() {
        let a = with_dec("expected ", params.len() as u64);
        let b = with_dec(" args, got ", args.len() as u64);
        return Some(join(a.as_str(), b.as_str()));
    }
    let mut k: usize = 0;
    while k < args.len()
        invariant
            k <= args@.len(),
            args@.len() == params@.len(),
            forall|j: int| 0 <= j < k ==> value_type(#[trigger] args@[j]) == params@[j],
        decreases args@.len() - k,
    {
        if args[k].ty() != params[k] {
            let a = join3("arg type ", valtype_name(args[k].ty()), " != param type ");
            return Some(join(a.as_str(), valtype_name(params[k])));
        }
        k = k + 1;
    }
    None
}

/// An instruction that cannot stand in a constant expression makes the
/// whole expression undefined.
proof fn lemma_const_bad(g: Seq<GlobalInst>, inst: Instance, instrs: Seq<Instr>, k: int)
    requires
        0 <= k < instrs.len(),
        const_instr_value(g, inst, instrs[k]) matches Some(None),
    ensures
        const_result(g, inst, instrs) is None,
    decreases instrs.len(),
{
    if k < instrs.len() - 1 {
        let p = instrs.drop_last();
        assert(p[k] == instrs[k]);
        lemma_const_bad(g, inst, p, k);
        assert(!const_ok(g, inst, p));
    }
}

/// The contents of each memory of `mems`.
pub open spec fn mem_contents(mems: Seq<MemInst>) -> Seq<Seq<u8>> {
    Seq::new(mems.len(), |k: int| mems[k].data@)
}

/// Data segment `i` of `module` applied to the memory contents `c` of an
/// instance `inst` over `globals`: a passive segment leaves them as they
/// are; an active one is copied into its memory at its offset (`None`, a
/// trap, where the memory or the range is not there).
pub open spec fn data_step(c: Seq<Seq<u8>>, globals: Seq<GlobalInst>, inst: Instance, module: Module, i: int) -> Option<Seq<Seq<u8>>> {
    match module.datas@[i].mode {
        DataMode::Passive => Some(c),
        DataMode::Active { mem, offset } => {
            if mem < inst.mem_addrs@.len() && i < inst.datas@.len() && inst.mem_addrs@[mem as int] < c.len() {
                let m = inst.mem_addrs@[mem as int] as int;
                match const_result(globals, inst, offset.instrs@) {
                    Some(Value::I32(off)) => if off + module.datas@[i].bytes@.len() <= c[m].len() {
                        Some(c.update(m, overwrite(c[m], off as int, module.datas@[i].bytes@)))
                    } else {
                        None
                    },
                    _ => None,
                }
            } else {
                None
            }
        },
    }
}

/// The memory contents after the first `n` data segments of `module` were
/// applied in order (`None` where one of them traps).
pub open spec fn datas_applied(c: Seq<Seq<u8>>, globals: Seq<GlobalInst>, inst: Instance, module: Module, n: nat) -> Option<Seq<Seq<u8>>>
    decreases n,
{
    if n == 0 {
        Some(c)
    } else {
        match datas_applied(c, globals, inst, module, (n - 1) as nat) {
            Some(d) => data_step(d, globals, inst, module, n - 1),
            None => None,
        }
    }
}

/// The contents of each table of `tables`.
pub open spec fn table_contents(tables: Seq<TableInst>) -> Seq<Seq<Value>> {
    Seq::new(tables.len(), |k: int| tables[k].elems@)
}

/// Element segment `i` of `module`, whose values are `segs[i]`, applied to
/// the table contents `c` of an instance `inst` over `globals`: an active
/// segment's values are copied into its table at its offset (`None`, a
/// trap, where the table or the range is not there); passive and
/// declarative ones leave the tables as they are.
pub open spec fn elem_step(
    c: Seq<Seq<Value>>,
    globals: Seq<GlobalInst>,
    inst: Instance,
    segs: Seq<Seq<Value>>,
    module: Module,
    i: int,
) -> Option<Seq<Seq<Value>>> {
    match module.elems@[i].mode {
        ElemMode::Active { table, offset } => {
            if table < inst.table_addrs@.len() && i < segs.len() && inst.table_addrs@[table as int] < c.len() {
                let t = inst.table_addrs@[table as int] as int;
                match const_result(globals, inst, offset.instrs@) {
                    Some(Value::I32(off)) => if off + segs[i].len() <= c[t].len() {
                        Some(c.update(t, overwrite(c[t], off as int, segs[i])))
                    } else {
                        None
                    },
                    _ => None,
                }
            } else {
                None
            }
        },
        _ => Some(c),
    }
}

/// The table contents after the first `n` element segments of `module`
/// were applied in order (`None` where one of them traps).
pub open spec fn elems_applied(
    c: Seq<Seq<Value>>,
    globals: Seq<GlobalInst>,
    inst: Instance,
    segs: Seq<Seq<Value>>,
    module: Module,
    n: nat,
) -> Option<Seq<Seq<Value>>>
    decreases n,
{
    if n == 0 {
        Some(c)
    } else {
        match elems_applied(c, globals, inst, segs, module, (n - 1) as nat) {
            Some(d) => elem_step(d, globals, inst, segs, module, n - 1),
            None => None,
        }
    }
}

/// The values an instance holds for each of its element segments.
pub open spec fn inst_segments(inst: Instance) -> Seq<Seq<Value>> {
    Seq::new(inst.elems@.len(), |k: int| inst.elems@[k].elems@)
}

/// Once an element segment traps, the segments after it change nothing.
proof fn lemma_elems_stay_none(
    c: Seq<Seq<Value>>,
    g: Seq<GlobalInst>,
    inst: Instance,
    segs: Seq<Seq<Value>>,
    module: Module,
    a: nat,
    b: nat,
)
    requires
        a <= b,
        elems_applied(c, g, inst, segs, module, a) is None,
    ensures
        elems_applied(c, g, inst, segs, module, b) is None,
    decreases b,
{
    if a < b {
        lemma_elems_stay_none(c, g, inst, segs, module, a, (b - 1) as nat);
    }
}

/// The contents of the tables `module` defines, when fresh: each at its
/// minimum size, null throughout.
pub open spec fn fresh_tables(module: Module) -> Seq<Seq<Value>> {
    Seq::new(
        module.tables@.len(),
        |k: int| Seq::new(module.tables@[k].limits.min as nat, |_j: int| null_value(module.tables@[k].elem)),
    )
}

/// The contents of the memories `module` defines, when fresh: each at its
/// minimum size in pages, zero throughout.
pub open spec fn fresh_mems(module: Module) -> Seq<Seq<u8>> {
    Seq::new(module.mems@.len(), |k: int| Seq::new((module.mems@[k].limits.min * 65536) as nat, |_j: int| 0u8))
}

/// The values of the element segments of `module`: each initializer
/// evaluated in `inst` over `globals`.
pub open spec fn segment_values(globals: Seq<GlobalInst>, inst: Instance, module: Module) -> Seq<Seq<Value>> {
    Seq::new(
        module.elems@.len(),
        |i: int| Seq::new(module.elems@[i].init@.len(), |j: int| const_result(globals, inst, module.elems@[i].init@[j].instrs@)->0),
    )
}

/// Applying element segments depends on an instance only through its
/// table, function and global addresses.
proof fn lemma_elems_same_inst(
    c: Seq<Seq<Value>>,
    g: Seq<GlobalInst>,
    i1: Instance,
    i2: Instance,
    segs: Seq<Seq<Value>>,
    module: Module,
    n: nat,
)
    requires
        i1.table_addrs@ == i2.table_addrs@,
        i1.func_addrs@ == i2.func_addrs@,
        i1.global_addrs@ == i2.global_addrs@,
    ensures
        elems_applied(c, g, i2, segs, module, n) == elems_applied(c, g, i1, segs, module, n),
    decreases n,
{
    if n > 0 {
        lemma_elems_same_inst(c, g, i1, i2, segs, module, (n - 1) as nat);
        match module.elems@[n - 1].mode {
            ElemMode::Active { offset, .. } => lemma_const_same(g, i1, i2, offset.instrs@),
            _ => {},
        }
    }
}

/// Applying data segments depends on an instance only through its memory,
/// function and global addresses and its number of data segments.
proof fn lemma_datas_same_inst(c: Seq<Seq<u8>>, g: Seq<GlobalInst>, i1: Instance, i2: Instance, module: Module, n: nat)
    requires
        i1.mem_addrs@ == i2.mem_addrs@,
        i1.datas@.len() == i2.datas@.len(),
        i1.func_addrs@ == i2.func_addrs@,
        i1.global_addrs@ == i2.global_addrs@,
    ensures
        datas_applied(c, g, i2, module, n) == datas_applied(c, g, i1, module, n),
    decreases n,
{
    if n > 0 {
        lemma_datas_same_inst(c, g, i1, i2, module, (n - 1) as nat);
        match module.datas@[n - 1].mode {
            DataMode::Active { offset, .. } => lemma_const_same(g, i1, i2, offset.instrs@),
            _ => {},
        }
    }
}

/// Whether applying the element segments stopped at segment `j`, which
/// trapped, the tables holding `t`: what the segments before it wrote.
pub open spec fn elems_stopped(
    c: Seq<Seq<Value>>,
    g: Seq<GlobalInst>,
    inst: Instance,
    segs: Seq<Seq<Value>>,
    module: Module,
    j: nat,
    t: Seq<Seq<Value>>,
) -> bool {
    &&& elems_applied(c, g, inst, segs, module, j) == Some(t)
    &&& elems_applied(c, g, inst, segs, module, j + 1) is None
}

/// Whether applying the data segments stopped at segment `j`, which
/// trapped, the memories holding `t`: what the segments before it wrote.
pub open spec fn datas_stopped(c: Seq<Seq<u8>>, g: Seq<GlobalInst>, inst: Instance, module: Module, j: nat, t: Seq<Seq<u8>>) -> bool {
    &&& datas_applied(c, g, inst, module, j) == Some(t)
    &&& datas_applied(c, g, inst, module, j + 1) is None
}

/// Once a data segment traps, the segments after it change nothing.
proof fn lemma_datas_stay_none(c: Seq<Seq<u8>>, g: Seq<GlobalInst>, inst: Instance, module: Module, a: nat, b: nat)
    requires
        a <= b,
        datas_applied(c, g, inst, module, a) is None,
    ensures
        datas_applied(c, g, inst, module, b) is None,
    decreases b,
{
    if a < b {
        lemma_datas_stay_none(c, g, inst, module, a, (b - 1) as nat);
    }
}

/// Every constant expression means the same in two instances with the
/// same function and global addresses.
proof fn lemma_const_same_each(g: Seq<GlobalInst>, i1: Instance, i2: Instance)
    requires
        i1.func_addrs@ == i2.func_addrs@,
        i1.global_addrs@ == i2.global_addrs@,
    ensures
        forall|instrs: Seq<Instr>| #[trigger] const_result(g, i2, instrs) == const_result(g, i1, instrs),
{
    assert forall|instrs: Seq<Instr>| #[trigger] const_result(g, i2, instrs) == const_result(g, i1, instrs) by {
        lemma_const_same(g, i1, i2, instrs);
    }
}

/// A constant expression means the same in two instances with the same
/// function and global addresses.
proof fn lemma_const_same(g: Seq<GlobalInst>, i1: Instance, i2: Instance, instrs: Seq<Instr>)
    requires
        i1.func_addrs@ == i2.func_addrs@,
        i1.global_addrs@ == i2.global_addrs@,
    ensures
        const_result(g, i2, instrs) == const_result(g, i1, instrs),
        const_ok(g, i2, instrs) == const_ok(g, i1, instrs),
    decreases instrs.len(),
{
    assert forall|k: int| 0 <= k < instrs.len() implies #[trigger] const_instr_value(g, i2, instrs[k])
        == const_instr_value(g, i1, instrs[k]) by {}
    if const_ok(g, i1, instrs) {
        assert forall|k: int| 0 <= k < instrs.len() implies !(#[trigger] const_instr_value(g, i2, instrs[k]) matches Some(None)) by {
            assert(!(const_instr_value(g, i1, instrs[k]) matches Some(None)));
        }
    }
    if const_ok(g, i2, instrs) {
        assert forall|k: int| 0 <= k < instrs.len() implies !(#[trigger] const_instr_value(g, i1, instrs[k]) matches Some(None)) by {
            assert(!(const_instr_value(g, i2, instrs[k]) matches Some(None)));
        }
    }
    if instrs.len() > 0 {
        lemma_const_same(g, i1, i2, instrs.drop_last());
    }
}

/// Each of the first `n` globals of `module` holds, at address `base + k`
/// of `g`, the value of its initializer evaluated in `inst` over `g`.
spec fn inits_hold(g: Seq<GlobalInst>, inst: Instance, module: Module, base: int, n: int) -> bool {
    forall|k: int| 0 <= k < n ==> #[trigger] const_ok(g, inst, module.globals@[k].init.instrs@)
        && const_result(g, inst, module.globals@[k].init.instrs@) == Some(g[base + k].val)
}

/// A constant expression that evaluates cleanly yields the same value
/// when the instance and the globals only grow.
proof fn lemma_const_widen(g1: Seq<GlobalInst>, i1: Instance, g2: Seq<GlobalInst>, i2: Instance, instrs: Seq<Instr>)
    requires
        const_ok(g1, i1, instrs),
        i1.func_addrs@.len() <= i2.func_addrs@.len(),
        i2.func_addrs@.take(i1.func_addrs@.len() as int) == i1.func_addrs@,
        i1.global_addrs@.len() <= i2.global_addrs@.len(),
        i2.global_addrs@.take(i1.global_addrs@.len() as int) == i1.global_addrs@,
        g1.len() <= g2.len(),
        g2.take(g1.len() as int) == g1,
    ensures
        const_ok(g2, i2, instrs),
        const_result(g2, i2, instrs) == const_result(g1, i1, instrs),
    decreases instrs.len(),
{
    assert forall|k: int| 0 <= k < instrs.len() implies #[trigger] const_instr_value(g2, i2, instrs[k])
        == const_instr_value(g1, i1, instrs[k]) by {
        assert(!(const_instr_value(g1, i1, instrs[k]) matches Some(None)));
        match instrs[k] {
            Instr::RefFunc { func } => {
                assert(i2.func_addrs@[func as int] == i2.func_addrs@.take(i1.func_addrs@.len() as int)[func as int]);
            },
            Instr::GlobalGet { idx } => {
                let a = i1.global_addrs@[idx as int];
                assert(i2.global_addrs@[idx as int] == i2.global_addrs@.take(i1.global_addrs@.len() as int)[idx as int]);
                assert(g2[a as int] == g2.take(g1.len() as int)[a as int]);
            },
            _ => {},
        }
    }
    if instrs.len() > 0 {
        let p = instrs.drop_last();
        assert forall|k: int| 0 <= k < p.len() implies !(#[trigger] const_instr_value(g1, i1, p[k]) matches Some(None)) by {
            assert(p[k] == instrs[k]);
        }
        lemma_const_widen(g1, i1, g2, i2, p);
        assert(const_instr_value(g2, i2, instrs.last()) == const_instr_value(g1, i1, instrs.last()));
    }
}

/// A constant expression with a value holds only constant instructions.
proof fn lemma_const_some_ok(g: Seq<GlobalInst>, inst: Instance, instrs: Seq<Instr>)
    requires
        const_result(g, inst, instrs) is Some,
    ensures
        const_ok(g, inst, instrs),
    decreases instrs.len(),
{
    let p = instrs.drop_last();
    match const_instr_value(g, inst, instrs.last()) {
        None => {
            lemma_const_some_ok(g, inst, p);
        },
        _ => {},
    }
    assert forall|k: int| 0 <= k < instrs.len() implies !(#[trigger] const_instr_value(g, inst, instrs[k]) matches Some(None)) by {
        if k < instrs.len() - 1 {
            assert(instrs[k] == p[k]);
        }
    }
}

impl Store {
    pub open spec fn wf(&self) -> bool {
        self.host_funcs <= self.funcs@.len()
    }

    pub fn new() -> (s: Store)
        ensures
            s.wf(),
            s.funcs@.len() == 0,
            s.tables@.len() == 0,
            s.mems@.len() == 0,
            s.globals@.len() == 0,
            s.instances@.len() == 0,
            s.host_funcs == 0,
    {
        Store {
            funcs: Vec::new(),
            tables: Vec::new(),
            mems: Vec::new(),
            globals: Vec::new(),
            instances: Vec::new(),
            host_funcs: 0,
        }
    }

    /// Adds a host module and returns its instance; host function `k` of
    /// `desc` gets host id `host_funcs + k`.
    pub fn add_host_module(&mut self, desc: HostModule) -> (r: Result<InstanceId, String>)
        requires
            old(self).wf(),
        ensures
            final(self).wf(),
            r is Ok ==> r->Ok_0 == old(self).instances@.len() && final(self).instances@.len() == old(self).instances@.len() + 1,
            r is Ok ==> final(self).funcs@.len() == old(self).funcs@.len() + desc.funcs@.len()
                && final(self).host_funcs == old(self).host_funcs + desc.funcs@.len(),
            r is Ok ==> final(self).instances@[r->Ok_0 as int].exports@.len() == desc.funcs@.len() + desc.globals@.len()
                + desc.tables@.len() + desc.mems@.len(),
            (exists|k: int| 0 <= k < desc.globals@.len() && value_type(#[trigger] desc.globals@[k].2) != desc.globals@[k].1.val) ==> r is Err,
            !host_desc_ok(old(self).funcs@.len() + desc.funcs@.len(), desc) ==> r is Err,
            host_desc_ok(old(self).funcs@.len() + desc.funcs@.len(), desc) ==> (r is Ok || (r matches Err(m)
                && allocation_refused(desc, m@))),
            r is Ok ==> host_funcs_listed(final(self).funcs@, old(self).funcs@.len() as int, old(self).host_funcs as int,
                final(self).instances@[r->Ok_0 as int].exports@, desc.funcs@),
            r is Ok ==> host_globals_listed(final(self).globals@, old(self).globals@.len() as int, desc.funcs@.len() as int,
                final(self).instances@[r->Ok_0 as int].exports@, desc.globals@, desc.globals@.len() as int),
            r is Ok ==> final(self).tables@.len() == old(self).tables@.len() + desc.tables@.len()
                && final(self).mems@.len() == old(self).mems@.len() + desc.mems@.len(),
            r is Ok ==> host_storage_listed(final(self).tables@, final(self).mems@, final(self).instances@[r->Ok_0 as int].exports@,
                desc, false, old(self).tables@.len() as int, (desc.funcs@.len() + desc.globals@.len()) as int, desc.tables@.len() as int),
            r is Ok ==> host_storage_listed(final(self).tables@, final(self).mems@, final(self).instances@[r->Ok_0 as int].exports@,
                desc, true, old(self).mems@.len() as int, (desc.funcs@.len() + desc.globals@.len() + desc.tables@.len()) as int,
                desc.mems@.len() as int),
    {
        let mut inst = Instance::empty();
        let mut i: usize = 0;
        while i < desc.funcs.len()
            invariant
                self.wf(),
                i <= desc.funcs@.len(),
                self.funcs@.len() == old(self).funcs@.len() + i,
                self.host_funcs == old(self).host_funcs + i,
                self.instances == old(self).instances,
                self.globals == old(self).globals,
                self.tables == old(self).tables,
                self.mems == old(self).mems,
                inst.exports@.len() == i,
                host_funcs_listed(self.funcs@, old(self).funcs@.len() as int, old(self).host_funcs as int, inst.exports@, desc.funcs@.take(i as int)),
            decreases desc.funcs@.len() - i,
        {
            let addr = self.funcs.len();
            self.funcs.push(FuncInst::Host { ty: desc.funcs[i].1.copy(), id: self.host_funcs });
            let n = self.funcs.len();
            assert(self.host_funcs < n);
            self.host_funcs = self.host_funcs + 1;
            inst.exports.push((desc.funcs[i].0.clone(), ExternVal::Func(addr)));
            inst.func_addrs.push(addr);
            proof {
                let d = desc.funcs@.take(i + 1);
                assert forall|k: int| 0 <= k < d.len() implies {
                    let e = #[trigger] inst.exports@[k];
                    &&& e.0@ == d[k].0@
                    &&& e.1 == ExternVal::Func((old(self).funcs@.len() + k) as usize)
                    &&& self.funcs@[old(self).funcs@.len() + k] matches FuncInst::Host { ty, id }
                        && id == old(self).host_funcs + k && ty.params@ == d[k].1.params@ && ty.results@ == d[k].1.results@
                } by {
                    if k < i {
                        assert(desc.funcs@.take(i as int)[k] == d[k]);
                    }
                }
            }
            i = i + 1;
        }
        proof {
            assert(desc.funcs@.take(desc.funcs@.len() as int) =~= desc.funcs@);
        }
        let ghost f1 = self.funcs@;
        let mut i: usize = 0;
        while i < desc.globals.len()
            invariant
                self.wf(),
                self.funcs@ == f1,
                host_funcs_listed(f1, old(self).funcs@.len() as int, old(self).host_funcs as int, inst.exports@, desc.funcs@),
                host_globals_listed(self.globals@, old(self).globals@.len() as int, desc.funcs@.len() as int, inst.exports@, desc.globals@, i as int),
                self.globals@.len() == old(self).globals@.len() + i,
                i <= desc.globals@.len(),
                self.funcs@.len() == old(self).funcs@.len() + desc.funcs@.len(),
                self.host_funcs == old(self).host_funcs + desc.funcs@.len(),
                self.instances == old(self).instances,
                inst.exports@.len() == desc.funcs@.len() + i,
                self.tables == old(self).tables,
                self.mems == old(self).mems,
                forall|k: int| 0 <= k < i ==> value_type(#[trigger] desc.globals@[k].2) == desc.globals@[k].1.val,
                forall|k: int| 0 <= k < i ==> #[trigger] host_global_ok(old(self).funcs@.len() + desc.funcs@.len(), desc.globals@[k]),
            decreases desc.globals@.len() - i,
        {
            let name = desc.globals[i].0.as_str();
            let ty = desc.globals[i].1;
            let val = desc.globals[i].2;
            // Host-supplied values are checked against engine invariants: a
            // declared/actual type mismatch or a forged function reference
            // would later make well-typed code misbehave.
            if val.ty() != ty.val {
                let a = join3("host global ", name, ": value type ");
                let b = join3(valtype_name(val.ty()), " != declared ", valtype_name(ty.val));
                assert(!host_global_ok(old(self).funcs@.len() + desc.funcs@.len(), desc.globals@[i as int]));
                return Err(join(a.as_str(), b.as_str()));
            }
            match val {
                Value::FuncRef(Some(a)) => {
                    if a as usize >= self.funcs.len() {
                        assert(!host_global_ok(old(self).funcs@.len() + desc.funcs@.len(), desc.globals@[i as int]));
                        return Err(join3("host global ", name, ": invalid function reference"));
                    }
                },
                _ => {},
            }
            let addr = self.globals.len();
            let ghost e0 = inst.exports@;
            let ghost gl0 = self.globals@;
            let name_copy = desc.globals[i].0.clone();
            proof {
                lemma_globals_listed_push(gl0, old(self).globals@.len() as int, desc.funcs@.len() as int, e0, desc.globals@, i as int,
                    (name_copy, ExternVal::Global(addr)), GlobalInst { ty, val });
                lemma_funcs_listed_push(f1, old(self).funcs@.len() as int, old(self).host_funcs as int, e0, desc.funcs@,
                    (name_copy, ExternVal::Global(addr)));
            }
            self.globals.push(GlobalInst { ty, val });
            inst.exports.push((name_copy, ExternVal::Global(addr)));
            inst.global_addrs.push(addr);
            proof {
                let ex = inst.exports@;
                assert(ex[desc.funcs@.len() + i] == (name_copy, ExternVal::Global(addr)));
                assert(host_globals_listed(self.globals@, old(self).globals@.len() as int, desc.funcs@.len() as int, ex, desc.globals@, i + 1)) by {
                    assert forall|k: int| 0 <= k < i + 1 implies {
                        let e = #[trigger] ex[desc.funcs@.len() + k];
                        &&& e.0@ == desc.globals@[k].0@
                        &&& e.1 == ExternVal::Global((old(self).globals@.len() + k) as usize)
                        &&& self.globals@[old(self).globals@.len() + k].val == desc.globals@[k].2
                        &&& self.globals@[old(self).globals@.len() + k].ty == desc.globals@[k].1
                    } by {
                        if k < i {
                            assert(ex[desc.funcs@.len() + k] == e0[desc.funcs@.len() + k]);
                            assert(self.globals@[old(self).globals@.len() + k] == gl0[old(self).globals@.len() + k]);
                        }
                    }
                }
            }
            i = i + 1;
        }
        let ghost g1 = self.globals@;
        let mut i: usize = 0;
        while i < desc.tables.len()
            invariant
                self.wf(),
                self.funcs@ == f1,
                self.globals@ == g1,
                host_funcs_listed(f1, old(self).funcs@.len() as int, old(self).host_funcs as int, inst.exports@, desc.funcs@),
                host_globals_listed(g1, old(self).globals@.len() as int, desc.funcs@.len() as int, inst.exports@, desc.globals@, desc.globals@.len() as int),
                g1.len() == old(self).globals@.len() + desc.globals@.len(),
                i <= desc.tables@.len(),
                self.funcs@.len() == old(self).funcs@.len() + desc.funcs@.len(),
                self.host_funcs == old(self).host_funcs + desc.funcs@.len(),
                self.instances == old(self).instances,
                inst.exports@.len() == desc.funcs@.len() + desc.globals@.len() + i,
                self.tables@.len() == old(self).tables@.len() + i,
                self.mems == old(self).mems,
                host_storage_listed(self.tables@, self.mems@, inst.exports@, desc, false, old(self).tables@.len() as int,
                    (desc.funcs@.len() + desc.globals@.len()) as int, i as int),
                forall|k: int| 0 <= k < i ==> (#[trigger] desc.tables@[k]).1.limits.min <= TABLE_IMPL_LIMIT,
            decreases desc.tables@.len() - i,
        {
            let name = desc.tables[i].0.as_str();
            let ty = desc.tables[i].1;
            let addr = self.tables.len();
            if ty.limits.min as u64 > TABLE_IMPL_LIMIT {
                assert(desc.tables@[i as int].1.limits.min > TABLE_IMPL_LIMIT);
                return Err(join3("host table ", name, ": exceeds implementation limit"));
            }
            let mut elems: Vec<Value> = Vec::new();
            if elems.try_reserve(ty.limits.min as usize).is_err() {
                let e = join3("host table ", name, ": cannot allocate");
                assert(e@ == "host table "@ + desc.tables@[i as int].0@ + ": cannot allocate"@);
                return Err(e);
            }
            let null = Value::null_of(ty.elem);
            elems.resize(ty.limits.min as usize, null);
            assert forall|j: int| 0 <= j < elems@.len() implies #[trigger] elems@[j] == null_value(ty.elem) by {
                assert(cloned::<Value>(null, elems@[j]));
            }
            let ghost t0 = self.tables@;
            let ghost e0 = inst.exports@;
            self.tables.push(TableInst { ty, elems });
            let name_copy = desc.tables[i].0.clone();
            proof {
                let any_global = GlobalInst { ty: GlobalType { val: ValType::I32, mutable: false }, val: Value::I32(0) };
                lemma_globals_listed_push(g1, old(self).globals@.len() as int, desc.funcs@.len() as int, inst.exports@, desc.globals@,
                    desc.globals@.len() as int, (name_copy, ExternVal::Table(addr)), any_global);
                lemma_funcs_listed_push(f1, old(self).funcs@.len() as int, old(self).host_funcs as int, inst.exports@, desc.funcs@,
                    (name_copy, ExternVal::Table(addr)));
            }
            inst.exports.push((name_copy, ExternVal::Table(addr)));
            inst.table_addrs.push(addr);
            proof {
                let first = desc.funcs@.len() + desc.globals@.len();
                assert forall|k: int| 0 <= k < i + 1 implies {
                    let e = #[trigger] inst.exports@[first + k];
                    &&& e.0@ == desc.tables@[k].0@
                    &&& e.1 == ExternVal::Table((old(self).tables@.len() + k) as usize)
                    &&& fresh_table(self.tables@[old(self).tables@.len() + k], desc.tables@[k].1)
                } by {
                    if k < i {
                        assert(inst.exports@[first + k] == e0[first + k]);
                        assert(self.tables@[old(self).tables@.len() + k] == t0[old(self).tables@.len() + k]);
                    }
                }
            }
            i = i + 1;
        }
        let ghost t1 = self.tables@;
        let mut i: usize = 0;
        while i < desc.mems.len()
            invariant
                self.wf(),
                self.funcs@ == f1,
                self.globals@ == g1,
                host_funcs_listed(f1, old(self).funcs@.len() as int, old(self).host_funcs as int, inst.exports@, desc.funcs@),
                host_globals_listed(g1, old(self).globals@.len() as int, desc.funcs@.len() as int, inst.exports@, desc.globals@, desc.globals@.len() as int),
                g1.len() == old(self).globals@.len() + desc.globals@.len(),
                i <= desc.mems@.len(),
                self.funcs@.len() == old(self).funcs@.len() + desc.funcs@.len(),
                self.host_funcs == old(self).host_funcs + desc.funcs@.len(),
                self.instances == old(self).instances,
                inst.exports@.len() == desc.funcs@.len() + desc.globals@.len() + desc.tables@.len() + i,
                self.tables@ == t1,
                t1.len() == old(self).tables@.len() + desc.tables@.len(),
                self.mems@.len() == old(self).mems@.len() + i,
                host_storage_listed(t1, self.mems@, inst.exports@, desc, false, old(self).tables@.len() as int,
                    (desc.funcs@.len() + desc.globals@.len()) as int, desc.tables@.len() as int),
                host_storage_listed(t1, self.mems@, inst.exports@, desc, true, old(self).mems@.len() as int,
                    (desc.funcs@.len() + desc.globals@.len() + desc.tables@.len()) as int, i as int),
                forall|k: int| 0 <= k < i ==> (#[trigger] desc.mems@[k]).1.limits.min * 65536 <= usize::MAX,
            decreases desc.mems@.len() - i,
        {
            let name = desc.mems[i].0.as_str();
            let ty = desc.mems[i].1;
            let addr = self.mems.len();
            let bytes = match mem_bytes(ty.limits.min) {
                Some(b) => b,
                None => {
                    assert(desc.mems@[i as int].1.limits.min * 65536 > usize::MAX);
                    return Err(text("host memory size overflow"));
                },
            };
            let mut data: Vec<u8> = Vec::new();
            if data.try_reserve(bytes).is_err() {
                let e = join3("host memory ", name, ": cannot allocate");
                assert(e@ == "host memory "@ + desc.mems@[i as int].0@ + ": cannot allocate"@);
                return Err(e);
            }
            data.resize(bytes, 0u8);
            assert forall|j: int| 0 <= j < data@.len() implies #[trigger] data@[j] == 0 by {
                assert(cloned::<u8>(0u8, data@[j]));
            }
            let ghost m0 = self.mems@;
            let ghost e0 = inst.exports@;
            self.mems.push(MemInst { ty, data });
            let name_copy = desc.mems[i].0.clone();
            proof {
                let any_global = GlobalInst { ty: GlobalType { val: ValType::I32, mutable: false }, val: Value::I32(0) };
                lemma_globals_listed_push(g1, old(self).globals@.len() as int, desc.funcs@.len() as int, inst.exports@, desc.globals@,
                    desc.globals@.len() as int, (name_copy, ExternVal::Mem(addr)), any_global);
                lemma_funcs_listed_push(f1, old(self).funcs@.len() as int, old(self).host_funcs as int, inst.exports@, desc.funcs@,
                    (name_copy, ExternVal::Mem(addr)));
            }
            inst.exports.push((name_copy, ExternVal::Mem(addr)));
            inst.mem_addrs.push(addr);
            proof {
                let first = desc.funcs@.len() + desc.globals@.len() + desc.tables@.len();
                let tfirst = desc.funcs@.len() + desc.globals@.len();
                assert forall|k: int| 0 <= k < i + 1 implies {
                    let e = #[trigger] inst.exports@[first + k];
                    &&& e.0@ == desc.mems@[k].0@
                    &&& e.1 == ExternVal::Mem((old(self).mems@.len() + k) as usize)
                    &&& fresh_mem(self.mems@[old(self).mems@.len() + k], desc.mems@[k].1)
                } by {
                    if k < i {
                        assert(inst.exports@[first + k] == e0[first + k]);
                        assert(self.mems@[old(self).mems@.len() + k] == m0[old(self).mems@.len() + k]);
                    }
                }
                assert forall|k: int| 0 <= k < desc.tables@.len() implies {
                    let e = #[trigger] inst.exports@[tfirst + k];
                    &&& e.0@ == desc.tables@[k].0@
                    &&& e.1 == ExternVal::Table((old(self).tables@.len() + k) as usize)
                    &&& fresh_table(t1[old(self).tables@.len() + k], desc.tables@[k].1)
                } by {
                    assert(inst.exports@[tfirst + k] == e0[tfirst + k]);
                }
            }
            i = i + 1;
        }
        self.instances.push(inst);
        Ok(self.instances.len() - 1)
    }

    /// Evaluates a constant expression in the context of `inst`.
    pub fn eval_const(&self, inst: &Instance, e: &ConstExpr) -> (r: Option<Value>)
        ensures
            r == const_result(self.globals@, *inst, e.instrs@),
    {
        let mut last: Option<Value> = None;
        let mut k: usize = 0;
        while k < e.instrs.len()
            invariant
                k <= e.instrs@.len(),
                last == const_result(self.globals@, *inst, e.instrs@.take(k as int)),
                const_ok(self.globals@, *inst, e.instrs@.take(k as int)),
            decreases e.instrs@.len() - k,
        {
            let v = match &e.instrs[k] {
                Instr::I32Const(v) => Some(Value::I32(*v)),
                Instr::I64Const(v) => Some(Value::I64(*v)),
                Instr::F32Const(v) => Some(Value::F32(*v)),
                Instr::F64Const(v) => Some(Value::F64(*v)),
                Instr::V128Const(v) => Some(Value::V128(*v)),
                Instr::RefNull(t) => Some(Value::null_of(*t)),
                Instr::RefFunc { func } => {
                    if (*func as usize) < inst.func_addrs.len() && inst.func_addrs[*func as usize] <= u32::MAX as usize {
                        Some(Value::FuncRef(Some(inst.func_addrs[*func as usize] as u32)))
                    } else {
                        proof {
                            lemma_const_bad(self.globals@, *inst, e.instrs@, k as int);
                        }
                        return None;
                    }
                },
                Instr::GlobalGet { idx } => {
                    if (*idx as usize) < inst.global_addrs.len() && inst.global_addrs[*idx as usize] < self.globals.len() {
                        Some(self.globals[inst.global_addrs[*idx as usize]].val)
                    } else {
                        proof {
                            lemma_const_bad(self.globals@, *inst, e.instrs@, k as int);
                        }
                        return None;
                    }
                },
                Instr::End => None,
                _ => {
                    proof {
                        lemma_const_bad(self.globals@, *inst, e.instrs@, k as int);
                    }
                    return None;
                },
            };
            proof {
                let t = e.instrs@.take(k + 1);
                assert(t.drop_last() =~= e.instrs@.take(k as int));
                assert(t.last() == e.instrs@[k as int]);
                assert forall|j: int| 0 <= j < k + 1 implies !(#[trigger] const_instr_value(self.globals@, *inst, t[j]) matches Some(None)) by {
                    if j < k {
                        assert(t[j] == e.instrs@.take(k as int)[j]);
                    }
                }
            }
            if v.is_some() {
                last = v;
            }
            k = k + 1;
        }
        proof {
            assert(e.instrs@.take(e.instrs@.len() as int) =~= e.instrs@);
        }
        last
    }

    /// The exports of instance `inst`, in order.
    pub fn exports(&self, inst: InstanceId) -> (r: Vec<(String, ExternVal)>)
        requires
            inst < self.instances@.len(),
        ensures
            r@.len() == self.instances@[inst as int].exports@.len(),
            forall|i: int| 0 <= i < r@.len() ==> #[trigger] r@[i].0@ == self.instances@[inst as int].exports@[i].0@
                && r@[i].1 == self.instances@[inst as int].exports@[i].1,
    {
        let ex = &self.instances[inst].exports;
        let mut out: Vec<(String, ExternVal)> = Vec::new();
        let mut i: usize = 0;
        while i < ex.len()
            invariant
                i <= ex@.len(),
                out@.len() == i,
                inst < self.instances@.len(),
                ex@ == self.instances@[inst as int].exports@,
                forall|j: int| 0 <= j < i ==> #[trigger] out@[j].0@ == ex@[j].0@ && out@[j].1 == ex@[j].1,
            decreases ex@.len() - i,
        {
            let name = ex[i].0.clone();
            let ghost before = out@;
            out.push((name, ex[i].1));
            proof {
                assert forall|j: int| 0 <= j < i + 1 implies #[trigger] out@[j].0@ == ex@[j].0@ && out@[j].1 == ex@[j].1 by {
                    if j < i {
                        assert(out@[j] == before[j]);
                    }
                }
            }
            i = i + 1;
        }
        out
    }

    /// The first export of `inst` named `field`.
    pub fn export_val(&self, inst: InstanceId, field: &str) -> (r: Option<ExternVal>)
        requires
            inst < self.instances@.len(),
        ensures
            ({
                let ex = self.instances@[inst as int].exports@;
                &&& r is None <==> (forall|i: int| 0 <= i < ex.len() ==> #[trigger] ex[i].0@ != field@)
                &&& r is Some ==> exists|i: int| 0 <= i < ex.len() && #[trigger] ex[i].0@ == field@ && ex[i].1 == r->Some_0
                    && forall|j: int| 0 <= j < i ==> #[trigger] ex[j].0@ != field@
                &&& r == first_named(ex, field@)
            }),
    {
        let ex = &self.instances[inst].exports;
        let f = field.to_owned();
        let mut i: usize = 0;
        while i < ex.len()
            invariant
                i <= ex@.len(),
                f@ == field@,
                inst < self.instances@.len(),
                ex@ == self.instances@[inst as int].exports@,
                forall|j: int| 0 <= j < i ==> #[trigger] ex@[j].0@ != field@,
            decreases ex@.len() - i,
        {
            if ex[i].0 == f {
                proof {
                    let exs = self.instances@[inst as int].exports@;
                    assert(exs == ex@);
                    assert(exs[i as int].0@ == field@);
                    assert(forall|j: int| 0 <= j < i ==> #[trigger] exs[j].0@ != field@);
                    lemma_first_named(exs, field@, i as int);
                }
                return Some(ex[i].1);
            }
            i = i + 1;
        }
        proof {
            lemma_first_named(ex@, field@, ex@.len() as int);
        }
        None
    }

    /// Looks up export `field` of `inst`, checks that it is a function
    /// taking `args`, and starts its invocation; the embedder runs the
    /// returned machine.
    pub fn invoke_export(&self, inst: InstanceId, field: &str, args: &[Value]) -> (r: Result<Machine, InvokeError>)
        requires
            inst < self.instances@.len(),
        ensures
            r is Ok ==> r->Ok_0.wf(),
            ({
                let ex = self.instances@[inst as int].exports@;
                (forall|i: int| 0 <= i < ex.len() ==> #[trigger] ex[i].0@ != field@) ==> (r matches Err(InvokeError::NoSuchExport(n)) && n@ == field@)
            }),
            ({
                let ex = self.instances@[inst as int].exports@;
                forall|i: int| 0 <= i < ex.len() && #[trigger] ex[i].0@ == field@
                    && (forall|j: int| 0 <= j < i ==> #[trigger] ex[j].0@ != field@) ==> {
                    &&& !(ex[i].1 is Func) ==> (r matches Err(InvokeError::KindMismatch(_)))
                    &&& ex[i].1 is Func && ex[i].1->Func_0 < self.funcs@.len() ==> {
                        let a = ex[i].1->Func_0;
                        let params = self.funcs@[a as int].func_type().params@;
                        let fits = args@.len() == params.len() && forall|k: int| 0 <= k < args@.len() ==> value_type(#[trigger] args@[k]) == params[k];
                        &&& !fits ==> (r matches Err(InvokeError::ArgMismatch(_)))
                        &&& fits && self.funcs@[a as int] is Host ==> r is Ok && r->Ok_0.depth() == 0 && r->Ok_0.queued is Some
                        &&& fits && self.funcs@[a as int] is Wasm ==> (r is Ok ==> r->Ok_0.depth() == 1)
                        &&& fits && self.funcs@[a as int] is Wasm ==> (r is Ok <==> args@.len()
                            + self.funcs@[a as int]->Wasm_code.locals@.len() <= crate::exec::MAX_VALUE_STACK)
                        &&& fits && self.funcs@[a as int] is Wasm ==> (r matches Err(e) ==> e matches InvokeError::Trap(t)
                            && t.msg@ == "call stack exhausted"@)
                    }
                }
            }),
    {
        let ev = match self.export_val(inst, field) {
            Some(ev) => ev,
            None => {
                return Err(InvokeError::NoSuchExport(text(field)));
            },
        };
        let addr = match ev {
            ExternVal::Func(a) => a,
            _ => {
                return Err(InvokeError::KindMismatch(join3("export ", field, " is not a function")));
            },
        };
        if addr >= self.funcs.len() {
            return Err(InvokeError::KindMismatch(join3("export ", field, " is not a function")));
        }
        let ty = self.funcs[addr].ty();
        match args_mismatch(args, ty.params.as_slice()) {
            Some(msg) => {
                return Err(InvokeError::ArgMismatch(msg));
            },
            None => {},
        }
        match invoke(self, addr, args) {
            Ok(m) => Ok(m),
            Err(t) => Err(InvokeError::Trap(t)),
        }
    }

    /// The value of global export `field` of `inst`.
    pub fn get_global_export(&self, inst: InstanceId, field: &str) -> (r: Result<Value, InvokeError>)
        requires
            inst < self.instances@.len(),
        ensures
            ({
                let ex = self.instances@[inst as int].exports@;
                &&& (forall|i: int| 0 <= i < ex.len() ==> #[trigger] ex[i].0@ != field@) ==> (r matches Err(InvokeError::NoSuchExport(n)) && n@ == field@)
                &&& r is Ok ==> exists|i: int| 0 <= i < ex.len() && #[trigger] ex[i].0@ == field@
                    && ex[i].1 is Global && ex[i].1->Global_0 < self.globals@.len()
                    && r->Ok_0 == self.globals@[ex[i].1->Global_0 as int].val
                &&& first_named(ex, field@) matches Some(ExternVal::Global(a)) ==> (if a < self.globals@.len() {
                    r == Ok::<Value, InvokeError>(self.globals@[a as int].val)
                } else {
                    r matches Err(InvokeError::KindMismatch(m)) && m@ == "export "@ + field@ + " is not a global"@
                })
                &&& (first_named(ex, field@) matches Some(v) && !(v is Global)) ==> (r matches Err(
                    InvokeError::KindMismatch(m),
                ) && m@ == "export "@ + field@ + " is not a global"@)
            }),
    {
        let ev = match self.export_val(inst, field) {
            Some(ev) => ev,
            None => {
                return Err(InvokeError::NoSuchExport(text(field)));
            },
        };
        match ev {
            ExternVal::Global(a) => {
                if a < self.globals.len() {
                    Ok(self.globals[a].val)
                } else {
                    Err(InvokeError::KindMismatch(join3("export ", field, " is not a global")))
                }
            },
            _ => Err(InvokeError::KindMismatch(join3("export ", field, " is not a global"))),
        }
    }
}

/// The first exports and functions of a host instance are the host
/// module's functions, in order, numbered from `host0`.
pub open spec fn host_funcs_listed(funcs: Seq<FuncInst>, f0: int, host0: int, exports: Seq<(String, ExternVal)>, desc: Seq<(String, FuncType)>) -> bool {
    forall|k: int| 0 <= k < desc.len() ==> {
        let e = #[trigger] exports[k];
        &&& e.0@ == desc[k].0@
        &&& e.1 == ExternVal::Func((f0 + k) as usize)
        &&& funcs[f0 + k] matches FuncInst::Host { ty, id }
            && id == host0 + k && ty.params@ == desc[k].1.params@ && ty.results@ == desc[k].1.results@
    }
}

/// The exports from `at` on are the host module's globals, in order.
pub open spec fn host_globals_listed(globals: Seq<GlobalInst>, g0: int, at: int, exports: Seq<(String, ExternVal)>, desc: Seq<(String, GlobalType, Value)>, count: int) -> bool {
    forall|k: int| 0 <= k < count ==> {
        let e = #[trigger] exports[at + k];
        &&& e.0@ == desc[k].0@
        &&& e.1 == ExternVal::Global((g0 + k) as usize)
        &&& globals[g0 + k].val == desc[k].2
        &&& globals[g0 + k].ty == desc[k].1
    }
}

/// Appending an export keeps the listed host functions.
proof fn lemma_funcs_listed_push(funcs: Seq<FuncInst>, f0: int, host0: int, exports: Seq<(String, ExternVal)>, desc: Seq<(String, FuncType)>, x: (String, ExternVal))
    requires
        host_funcs_listed(funcs, f0, host0, exports, desc),
        desc.len() <= exports.len(),
    ensures
        host_funcs_listed(funcs, f0, host0, exports.push(x), desc),
{
    assert forall|k: int| 0 <= k < desc.len() implies #[trigger] exports.push(x)[k] == exports[k] by {}
}

/// Appending an export or a global keeps the listed host globals.
proof fn lemma_globals_listed_push(globals: Seq<GlobalInst>, g0: int, at: int, exports: Seq<(String, ExternVal)>, desc: Seq<(String, GlobalType, Value)>, count: int, x: (String, ExternVal), g: GlobalInst)
    requires
        host_globals_listed(globals, g0, at, exports, desc, count),
        at + count <= exports.len(),
        g0 + count <= globals.len(),
        0 <= at,
        0 <= g0,
    ensures
        host_globals_listed(globals, g0, at, exports.push(x), desc, count),
        host_globals_listed(globals.push(g), g0, at, exports, desc, count),
{
    assert forall|k: int| 0 <= k < count implies #[trigger] exports.push(x)[at + k] == exports[at + k] by {}
    assert forall|k: int| 0 <= k < count implies #[trigger] globals.push(g)[g0 + k] == globals[g0 + k] by {}
}

/// `self` grew from `pre` by entries past the given sizes only.
pub open spec fn extends(s: Store, pre: Store, fb: usize, gb: usize, tb: usize, mb: usize) -> bool {
    &&& s.wf()
    &&& pre.wf()
    &&& s.host_funcs == pre.host_funcs
    &&& s.instances == pre.instances
    &&& fb == pre.funcs@.len()
    &&& gb == pre.globals@.len()
    &&& tb == pre.tables@.len()
    &&& mb == pre.mems@.len()
    &&& s.funcs@.len() >= fb
    &&& s.globals@.len() >= gb
    &&& s.tables@.len() >= tb
    &&& s.mems@.len() >= mb
    &&& s.funcs@.take(fb as int) == pre.funcs@
    &&& s.globals@.take(gb as int) == pre.globals@
    &&& s.tables@.take(tb as int) == pre.tables@
    &&& s.mems@.take(mb as int) == pre.mems@
}

/// Whether a store function is a function of instance `id` with type `ty`.
pub open spec fn own_func(f: FuncInst, id: int, ty: FuncType) -> bool {
    f matches FuncInst::Wasm { ty: t, inst, .. } && inst == id && t.params@ == ty.params@ && t.results@ == ty.results@
}

/// The value of the first entry of `s` named `name`.
pub open spec fn first_named<V>(s: Seq<(String, V)>, name: Seq<char>) -> Option<V>
    decreases s.len(),
{
    if s.len() == 0 {
        None
    } else if s[0].0@ == name {
        Some(s[0].1)
    } else {
        first_named(s.drop_first(), name)
    }
}

/// The first entry named `name` is the one at `i` when no earlier entry
/// has that name, and there is none when no entry has it.
pub proof fn lemma_first_named<V>(s: Seq<(String, V)>, name: Seq<char>, i: int)
    requires
        0 <= i <= s.len(),
        forall|j: int| 0 <= j < i ==> #[trigger] s[j].0@ != name,
        i < s.len() ==> s[i].0@ == name,
    ensures
        first_named(s, name) == if i < s.len() {
            Some(s[i].1)
        } else {
            None::<V>
        },
    decreases s.len(),
{
    if s.len() > 0 && i > 0 {
        let t = s.drop_first();
        assert forall|j: int| 0 <= j < i - 1 implies #[trigger] t[j].0@ != name by {
            assert(t[j] == s[j + 1]);
        }
        lemma_first_named(t, name, i - 1);
        if i < s.len() {
            assert(t[i - 1] == s[i]);
        }
    }
}

/// Whether `t` is a fresh table of type `ty`: at its minimum size, null
/// throughout.
pub open spec fn fresh_table(t: TableInst, ty: TableType) -> bool {
    &&& t.ty == ty
    &&& t.elems@.len() == ty.limits.min
    &&& forall|i: int| 0 <= i < t.elems@.len() ==> #[trigger] t.elems@[i] == null_value(ty.elem)
}

/// Whether `m` is a fresh memory of type `ty`: at its minimum size in
/// pages, zero throughout.
pub open spec fn fresh_mem(m: MemInst, ty: MemType) -> bool {
    &&& m.ty == ty
    &&& m.data@.len() == ty.limits.min * 65536
    &&& forall|i: int| 0 <= i < m.data@.len() ==> #[trigger] m.data@[i] == 0
}

/// Whether the host tables (`kind` false) or memories (`kind` true) of
/// `desc`, stored from `base` on, are fresh and exported in order from
/// export `first` on.
pub open spec fn host_storage_listed(
    tables: Seq<TableInst>,
    mems: Seq<MemInst>,
    exports: Seq<(String, ExternVal)>,
    desc: HostModule,
    kind: bool,
    base: int,
    first: int,
    n: int,
) -> bool {
    forall|k: int| 0 <= k < n ==> {
        let e = #[trigger] exports[first + k];
        if kind {
            &&& e.0@ == desc.mems@[k].0@
            &&& e.1 == ExternVal::Mem((base + k) as usize)
            &&& fresh_mem(mems[base + k], desc.mems@[k].1)
        } else {
            &&& e.0@ == desc.tables@[k].0@
            &&& e.1 == ExternVal::Table((base + k) as usize)
            &&& fresh_table(tables[base + k], desc.tables@[k].1)
        }
    }
}

/// An instance export carries the name and the kind of the module export.
pub open spec fn export_matches(e: (String, ExternVal), x: crate::module::Export) -> bool {
    &&& e.0@ == x.name@
    &&& match (e.1, x.desc) {
        (ExternVal::Func(_), ExportDesc::Func(_)) => true,
        (ExternVal::Table(_), ExportDesc::Table(_)) => true,
        (ExternVal::Mem(_), ExportDesc::Mem(_)) => true,
        (ExternVal::Global(_), ExportDesc::Global(_)) => true,
        _ => false,
    }
}

/// Link error `msg`.
fn link(msg: &str) -> (e: InstError)
    ensures
        e matches InstError::Link(m) && m@ == msg@,
{
    InstError::Link(text(msg))
}

impl Store {
    /// The values of an element segment's initializers.
    fn eval_inits(&self, inst: &Instance, init: &Vec<ConstExpr>) -> (r: Option<Vec<Value>>)
        ensures
            r is Some <==> forall|j: int| 0 <= j < init@.len() ==> #[trigger] const_result(self.globals@, *inst, init@[j].instrs@) is Some,
            r matches Some(v) ==> v@.len() == init@.len(),
            r matches Some(v) ==> forall|j: int| 0 <= j < init@.len() ==> const_result(self.globals@, *inst, init@[j].instrs@)
                == Some(#[trigger] v@[j]),
    {
        let mut elems: Vec<Value> = Vec::new();
        let mut j: usize = 0;
        while j < init.len()
            invariant
                j <= init@.len(),
                elems@.len() == j,
                forall|k: int| 0 <= k < j ==> const_result(self.globals@, *inst, init@[k].instrs@) == Some(#[trigger] elems@[k]),
            decreases init@.len() - j,
        {
            match self.eval_const(inst, &init[j]) {
                Some(v) => elems.push(v),
                None => {
                    return None;
                },
            }
            j = j + 1;
        }
        assert forall|j: int| 0 <= j < init@.len() implies #[trigger] const_result(self.globals@, *inst, init@[j].instrs@) is Some by {
            assert(const_result(self.globals@, *inst, init@[j].instrs@) == Some(elems@[j]));
        }
        Some(elems)
    }

    /// Checks one resolved import against its declaration and returns the
    /// store address it contributes.
    fn match_import(&self, module: &Module, desc: &ImportDesc, ev: ExternVal) -> (r: Result<usize, InstError>)
        ensures
            r is Err ==> r->Err_0 is Link,
            r is Ok <==> import_fits(*self, *module, *desc, ev),
            r is Ok ==> match ev {
                ExternVal::Func(a) => r->Ok_0 == a && a < self.funcs@.len(),
                ExternVal::Table(a) => r->Ok_0 == a && a < self.tables@.len(),
                ExternVal::Mem(a) => r->Ok_0 == a && a < self.mems@.len(),
                ExternVal::Global(a) => r->Ok_0 == a && a < self.globals@.len(),
            },
            r is Ok ==> match (*desc, ev) {
                (ImportDesc::Func(_), ExternVal::Func(_)) => true,
                (ImportDesc::Table(_), ExternVal::Table(_)) => true,
                (ImportDesc::Mem(_), ExternVal::Mem(_)) => true,
                (ImportDesc::Global(_), ExternVal::Global(_)) => true,
                _ => false,
            },
    {
        // The resolver's addresses are checked before indexing the store.
        let in_bounds = match ev {
            ExternVal::Func(a) => a < self.funcs.len(),
            ExternVal::Table(a) => a < self.tables.len(),
            ExternVal::Mem(a) => a < self.mems.len(),
            ExternVal::Global(a) => a < self.globals.len(),
        };
        if !in_bounds {
            return Err(link("resolved import address out of bounds"));
        }
        match (desc, ev) {
            (ImportDesc::Func(tidx), ExternVal::Func(addr)) => {
                if (*tidx as usize) >= module.types.len() {
                    return Err(link("incompatible import type"));
                }
                let want = &module.types[*tidx as usize];
                if !self.funcs[addr].ty().same(want) {
                    return Err(link("incompatible import type"));
                }
                Ok(addr)
            },
            (ImportDesc::Table(want), ExternVal::Table(addr)) => {
                let have = &self.tables[addr];
                if have.elems.len() > u32::MAX as usize {
                    return Err(link("incompatible import type"));
                }
                let have_limits = Limits { min: have.elems.len() as u32, max: have.ty.limits.max };
                if have.ty.elem != want.elem || !limits_match(&have_limits, &want.limits) {
                    return Err(link("incompatible import type"));
                }
                Ok(addr)
            },
            (ImportDesc::Mem(want), ExternVal::Mem(addr)) => {
                let have = &self.mems[addr];
                let pages = have.data.len() / PAGE_SIZE;
                if pages > u32::MAX as usize {
                    return Err(link("incompatible import type"));
                }
                let have_limits = Limits { min: pages as u32, max: have.ty.limits.max };
                if !limits_match(&have_limits, &want.limits) {
                    return Err(link("incompatible import type"));
                }
                Ok(addr)
            },
            (ImportDesc::Global(want), ExternVal::Global(addr)) => {
                if self.globals[addr].ty != *want {
                    return Err(link("incompatible import type"));
                }
                Ok(addr)
            },
            _ => Err(link("incompatible import type")),
        }
    }

    /// Drops the entries allocated after the given sizes.
    fn roll_back(&mut self, funcs: usize, globals: usize, tables: usize, mems: usize)
        requires
            old(self).wf(),
            funcs >= old(self).host_funcs,
        ensures
            final(self).wf(),
            final(self).instances == old(self).instances,
            funcs <= old(self).funcs@.len() ==> final(self).funcs@ == old(self).funcs@.take(funcs as int),
            globals <= old(self).globals@.len() ==> final(self).globals@ == old(self).globals@.take(globals as int),
            tables <= old(self).tables@.len() ==> final(self).tables@ == old(self).tables@.take(tables as int),
            mems <= old(self).mems@.len() ==> final(self).mems@ == old(self).mems@.take(mems as int),
            final(self).host_funcs == old(self).host_funcs,
    {
        self.funcs.truncate(funcs);
        self.globals.truncate(globals);
        self.tables.truncate(tables);
        self.mems.truncate(mems);
    }

    /// Instantiates `module`, whose imports were resolved by the embedder to
    /// `imports` (one entry per import, `None` when nothing was found).
    /// Link errors leave the store as it was; a trap while applying
    /// segments keeps the effects of the segments applied before it.
    /// The start function, if any, is returned for the embedder to run.
    #[verifier::rlimit(80)]
    pub fn instantiate(&mut self, module: &Module, imports: &Vec<Option<ExternVal>>) -> (r: Result<Instantiated, InstError>)
        requires
            old(self).wf(),
        ensures
            final(self).wf(),
            r matches Err(InstError::Link(_)) ==> final(self).funcs@ == old(self).funcs@
                && final(self).globals@ == old(self).globals@
                && final(self).tables@ == old(self).tables@
                && final(self).mems@ == old(self).mems@
                && final(self).instances == old(self).instances
                && final(self).host_funcs == old(self).host_funcs,
            r is Ok ==> r->Ok_0.id == old(self).instances@.len() && final(self).instances@.len() == old(self).instances@.len() + 1,
            r is Ok ==> final(self).funcs@.len() == old(self).funcs@.len() + module.funcs@.len(),
            r is Ok ==> final(self).globals@.len() == old(self).globals@.len() + module.globals@.len()
                && final(self).tables@.len() == old(self).tables@.len() + module.tables@.len()
                && final(self).mems@.len() == old(self).mems@.len() + module.mems@.len(),
            r is Ok ==> forall|k: int| 0 <= k < module.funcs@.len() ==> own_func(
                #[trigger] final(self).funcs@[old(self).funcs@.len() + k],
                r->Ok_0.id as int,
                module.types@[module.funcs@[k] as int],
            ),
            r is Ok ==> forall|k: int| 0 <= k < module.globals@.len() ==> #[trigger] final(self).globals@[old(self).globals@.len() + k].ty
                == module.globals@[k].ty,
            r is Ok ==> forall|k: int| 0 <= k < module.globals@.len() ==> const_result(
                final(self).globals@,
                final(self).instances@[r->Ok_0.id as int],
                module.globals@[k].init.instrs@,
            ) == Some(#[trigger] final(self).globals@[old(self).globals@.len() + k].val),
            r is Ok ==> elems_applied(
                table_contents(old(self).tables@) + fresh_tables(*module),
                final(self).globals@,
                final(self).instances@[r->Ok_0.id as int],
                segment_values(final(self).globals@, final(self).instances@[r->Ok_0.id as int], *module),
                *module,
                module.elems@.len(),
            ) == Some(table_contents(final(self).tables@)),
            r is Ok ==> datas_applied(
                mem_contents(old(self).mems@) + fresh_mems(*module),
                final(self).globals@,
                final(self).instances@[r->Ok_0.id as int],
                *module,
                module.datas@.len(),
            ) == Some(mem_contents(final(self).mems@)),
            r matches Err(InstError::Trap(_)) ==> final(self).instances@.len() == old(self).instances@.len() + 1 && ((
            exists|j: nat| j < module.elems@.len() && #[trigger] elems_stopped(
                table_contents(old(self).tables@) + fresh_tables(*module),
                final(self).globals@,
                final(self).instances@[old(self).instances@.len() as int],
                segment_values(final(self).globals@, final(self).instances@[old(self).instances@.len() as int], *module),
                *module,
                j,
                table_contents(final(self).tables@),
            )) && mem_contents(final(self).mems@) == mem_contents(old(self).mems@) + fresh_mems(*module) || elems_applied(
                table_contents(old(self).tables@) + fresh_tables(*module),
                final(self).globals@,
                final(self).instances@[old(self).instances@.len() as int],
                segment_values(final(self).globals@, final(self).instances@[old(self).instances@.len() as int], *module),
                *module,
                module.elems@.len(),
            ) == Some(table_contents(final(self).tables@)) && (exists|j: nat| j < module.datas@.len() && #[trigger] datas_stopped(
                mem_contents(old(self).mems@) + fresh_mems(*module),
                final(self).globals@,
                final(self).instances@[old(self).instances@.len() as int],
                *module,
                j,
                mem_contents(final(self).mems@),
            ))),
            r is Ok ==> final(self).instances@[r->Ok_0.id as int].exports@.len() == module.exports@.len(),
            r is Ok ==> forall|k: int| 0 <= k < module.exports@.len() ==> export_matches(
                #[trigger] final(self).instances@[r->Ok_0.id as int].exports@[k], module.exports@[k]),
            r is Ok ==> (r->Ok_0.start is Some <==> module.start is Some),
            r is Ok ==> (r->Ok_0.start matches Some(a) ==> a < final(self).funcs@.len()),
            r is Ok ==> (r->Ok_0.start matches Some(a) ==> module.start matches Some(f)
                && f < final(self).instances@[r->Ok_0.id as int].func_addrs@.len()
                && a == final(self).instances@[r->Ok_0.id as int].func_addrs@[f as int]),
            imports@.len() < module.imports@.len() ==> r is Err,
            module_is_empty(*module) ==> r is Ok,
            forall|k: int| #[trigger] import_missing(*old(self), *module, imports@, k) ==> (r matches Err(InstError::Link(m)) && m@
                == "unknown import "@ + module.imports@[k].module@ + "."@ + module.imports@[k].name@),
            (exists|k: int| 0 <= k < module.tables@.len() && (#[trigger] module.tables@[k]).limits.min > TABLE_IMPL_LIMIT)
                ==> r matches Err(InstError::Link(_)),
            (exists|k: int| 0 <= k < module.mems@.len() && (#[trigger] module.mems@[k]).limits.min * 65536 > usize::MAX)
                ==> r matches Err(InstError::Link(_)),
            r is Ok ==> forall|k: int| 0 <= k < module.imports@.len() ==> #[trigger] import_resolved(*old(self), *module, imports@, k),
            (exists|k: int| 0 <= k < module.imports@.len() && !#[trigger] import_resolved(*old(self), *module, imports@, k))
                ==> r matches Err(InstError::Link(_)),
            all_imports_resolved(*old(self), *module, imports@) && simple_module(*module) ==> r is Ok || (r matches Err(InstError::Link(m)) && (m@ == "cannot allocate table"@
                || m@ == "cannot allocate memory"@)),
    {
        let mut inst = Instance::empty();
        inst.types = copy_types(&module.types);
        // 1. Resolve and type-check imports.
        assert(module.imports@.take(0).len() == 0);
        let mut i: usize = 0;
        while i < module.imports.len()
            invariant
                self == old(self),
                self.wf(),
                i <= module.imports@.len(),
                inst.func_addrs@.len() <= i,
                inst.func_addrs@.len() == import_funcs(module.imports@.take(i as int)).len(),
                inst.table_addrs@.len() == import_tables(module.imports@.take(i as int)).len(),
                inst.mem_addrs@.len() == import_mems(module.imports@.take(i as int)).len(),
                inst.global_addrs@.len() == import_globals(module.imports@.take(i as int)).len(),
                inst.exports@.len() == 0,
                inst.elems@.len() == 0,
                inst.datas@.len() == 0,
                forall|k: int| 0 <= k < inst.func_addrs@.len() ==> #[trigger] inst.func_addrs@[k] < self.funcs@.len(),
                forall|k: int| 0 <= k < inst.table_addrs@.len() ==> #[trigger] inst.table_addrs@[k] < self.tables@.len(),
                forall|k: int| 0 <= k < inst.mem_addrs@.len() ==> #[trigger] inst.mem_addrs@[k] < self.mems@.len(),
                forall|k: int| 0 <= k < inst.global_addrs@.len() ==> #[trigger] inst.global_addrs@[k] < self.globals@.len(),
                i <= imports@.len() || i == 0,
                forall|k: int| 0 <= k < i ==> #[trigger] import_resolved(*old(self), *module, imports@, k),
            decreases module.imports@.len() - i,
        {
            let imp = &module.imports[i];
            let ev = if i < imports.len() { imports[i] } else { None };
            let ev = match ev {
                Some(ev) => ev,
                None => {
                    proof {
                        assert(all_imports_resolved(*old(self), *module, imports@) ==> import_resolved(
                            *old(self),
                            *module,
                            imports@,
                            i as int,
                        ));
                        assert forall|k: int| #[trigger] import_missing(*old(self), *module, imports@, k) implies k == i by {
                            if k < i {
                                assert(import_resolved(*old(self), *module, imports@, k));
                            } else if k > i {
                                assert(import_resolved(*old(self), *module, imports@, i as int));
                            }
                        }
                    }
                    let a = join3("unknown import ", imp.module.as_str(), ".");
                    return Err(InstError::Link(join(a.as_str(), imp.name.as_str())));
                },
            };
            let addr = match self.match_import(module, &imp.desc, ev) {
                Ok(a) => a,
                Err(e) => {
                    proof {
                        assert(!import_resolved(*old(self), *module, imports@, i as int));
                        assert forall|k: int| !#[trigger] import_missing(*old(self), *module, imports@, k) by {
                            if 0 <= k < i {
                                assert(import_resolved(*old(self), *module, imports@, k));
                            } else if k > i && k < module.imports@.len() {
                                if import_missing(*old(self), *module, imports@, k) {
                                    assert(import_resolved(*old(self), *module, imports@, i as int));
                                }
                            }
                        }
                    }
                    return Err(e);
                },
            };
            match ev {
                ExternVal::Func(_) => inst.func_addrs.push(addr),
                ExternVal::Table(_) => inst.table_addrs.push(addr),
                ExternVal::Mem(_) => inst.mem_addrs.push(addr),
                ExternVal::Global(_) => inst.global_addrs.push(addr),
            }
            proof {
                let t = module.imports@.take(i + 1);
                assert(t.drop_last() =~= module.imports@.take(i as int));
                assert(t.last() == module.imports@[i as int]);
            }
            i = i + 1;
        }
        proof {
            assert(module.imports@.take(module.imports@.len() as int) =~= module.imports@);
            assert forall|k: int| !#[trigger] import_missing(*old(self), *module, imports@, k) by {
                if 0 <= k < module.imports@.len() {
                    assert(import_resolved(*old(self), *module, imports@, k));
                }
            }
            assert(no_import_missing(*old(self), *module, imports@));
        }
        // Allocation failures below must not leave orphan store entries
        // behind: before the instance is published nothing can reference
        // them, so they are rolled back wholesale.
        let funcs_base = self.funcs.len();
        let globals_base = self.globals.len();
        let tables_base = self.tables.len();
        let mems_base = self.mems.len();
        let ghost pre = *self;
        assert(self.funcs@.take(funcs_base as int) =~= pre.funcs@);
        assert(self.globals@.take(globals_base as int) =~= pre.globals@);
        assert(self.tables@.take(tables_base as int) =~= pre.tables@);
        assert(self.mems@.take(mems_base as int) =~= pre.mems@);
        // 2. Own functions (addresses must exist before globals and element
        // segments evaluate ref.func).
        if module.codes.len() < module.funcs.len() {
            return Err(link("function without code"));
        }
        let ghost imported_funcs = inst.func_addrs@.len();
        let mut i: usize = 0;
        while i < module.funcs.len()
            invariant
                inst.func_addrs@.len() == imported_funcs + i,
                inst.table_addrs@.len() == import_tables(module.imports@).len(),
                inst.mem_addrs@.len() == import_mems(module.imports@).len(),
                inst.global_addrs@.len() == import_globals(module.imports@).len(),
                forall|k: int| 0 <= k < inst.global_addrs@.len() ==> #[trigger] inst.global_addrs@[k] < self.globals@.len(),
                extends(*self, pre, funcs_base, globals_base, tables_base, mems_base),
                pre == *old(self),
                no_import_missing(*old(self), *module, imports@),
                inst.elems@.len() == 0,
                inst.datas@.len() == 0,
                inst.exports@.len() <= module.exports@.len(),
                module.codes@.len() >= module.funcs@.len(),
                i <= module.funcs@.len(),
                self.globals@.len() == globals_base,
                self.tables@.len() == tables_base,
                self.mems@.len() == mems_base,
                forall|k: int| 0 <= k < i ==> own_func(#[trigger] self.funcs@[funcs_base + k], pre.instances@.len() as int, module.types@[module.funcs@[k] as int]),
                self.funcs@.len() == funcs_base + i,
                inst.exports@.len() == 0,
                forall|k: int| 0 <= k < inst.func_addrs@.len() ==> #[trigger] inst.func_addrs@[k] < self.funcs@.len(),
            decreases module.funcs@.len() - i,
        {
            let tidx = module.funcs[i] as usize;
            if tidx >= module.types.len() {
                self.roll_back(funcs_base, globals_base, tables_base, mems_base);
                return Err(link("unknown type"));
            }
            let addr = self.funcs.len();
            let code = module.codes[i].clone();
            self.funcs.push(FuncInst::Wasm { ty: module.types[tidx].copy(), inst: self.instances.len(), code: Rc::new(code) });
            assert(self.funcs@.take(funcs_base as int) =~= pre.funcs@);
            inst.func_addrs.push(addr);
            i = i + 1;
        }
        let ghost funcs_done = self.funcs@;
        let ghost funcs_at = inst.func_addrs@;
        // 3. Globals: initializers see imported globals and own functions.
        let mut i: usize = 0;
        while i < module.globals.len()
            invariant
                inst.func_addrs@ == funcs_at,
                inst.table_addrs@.len() == import_tables(module.imports@).len(),
                inst.mem_addrs@.len() == import_mems(module.imports@).len(),
                inst.global_addrs@.len() == import_globals(module.imports@).len() + i,
                forall|k: int| 0 <= k < inst.global_addrs@.len() ==> #[trigger] inst.global_addrs@[k] < self.globals@.len(),
                inits_hold(self.globals@, inst, *module, globals_base as int, i as int),
                extends(*self, pre, funcs_base, globals_base, tables_base, mems_base),
                pre == *old(self),
                no_import_missing(*old(self), *module, imports@),
                inst.elems@.len() == 0,
                inst.datas@.len() == 0,
                inst.exports@.len() <= module.exports@.len(),
                self.funcs@.len() == funcs_base + module.funcs@.len(),
                i <= module.globals@.len(),
                self.tables@.len() == tables_base,
                self.mems@.len() == mems_base,
                self.funcs@ == funcs_done,
                forall|k: int| 0 <= k < module.funcs@.len() ==> own_func(#[trigger] funcs_done[funcs_base + k], pre.instances@.len() as int, module.types@[module.funcs@[k] as int]),
                self.globals@.len() == globals_base + i,
                forall|k: int| 0 <= k < i ==> #[trigger] self.globals@[globals_base + k].ty == module.globals@[k].ty,
                inst.exports@.len() == 0,
                forall|k: int| 0 <= k < inst.func_addrs@.len() ==> #[trigger] inst.func_addrs@[k] < self.funcs@.len(),
            decreases module.globals@.len() - i,
        {
            let ghost g0 = self.globals@;
            let ghost i0 = inst;
            let val = match self.eval_const(&inst, &module.globals[i].init) {
                Some(v) => v,
                None => {
                    proof {
                        if simple_module(*module) {
                            let e = module.globals@[i as int].init.instrs@;
                            assert(simple_init(*module, e));
                            if let Instr::GlobalGet { idx } = e[0] {
                                assert(inst.global_addrs@[idx as int] < self.globals@.len());
                            }
                            reveal_with_fuel(const_result, 3);
                            assert(e.drop_last() =~= seq![e[0]]);
                            assert(e.drop_last().drop_last() =~= Seq::<Instr>::empty());
                            assert(const_ok(self.globals@, inst, e.drop_last().drop_last()));
                            assert(const_result(self.globals@, inst, e) is Some);
                        }
                    }
                    self.roll_back(funcs_base, globals_base, tables_base, mems_base);
                    return Err(link("invalid constant expression"));
                },
            };
            let addr = self.globals.len();
            self.globals.push(GlobalInst { ty: module.globals[i].ty, val });
            assert(self.globals@.take(globals_base as int) =~= pre.globals@);
            inst.global_addrs.push(addr);
            proof {
                assert(self.globals@.take(g0.len() as int) =~= g0);
                assert(inst.global_addrs@.take(i0.global_addrs@.len() as int) =~= i0.global_addrs@);
                assert(inst.func_addrs@.take(i0.func_addrs@.len() as int) =~= i0.func_addrs@);
                lemma_const_some_ok(g0, i0, module.globals@[i as int].init.instrs@);
                assert forall|k: int| 0 <= k < i + 1 implies #[trigger] const_ok(self.globals@, inst, module.globals@[k].init.instrs@)
                    && const_result(self.globals@, inst, module.globals@[k].init.instrs@) == Some(self.globals@[globals_base + k].val) by {
                    assert(const_ok(g0, i0, module.globals@[k].init.instrs@));
                    lemma_const_widen(g0, i0, self.globals@, inst, module.globals@[k].init.instrs@);
                }
                assert(inits_hold(self.globals@, inst, *module, globals_base as int, i + 1));
            }
            i = i + 1;
        }
        let ghost globals_done = self.globals@;
        let ghost inst_g = inst;
        // 4. Tables and memories.
        assert(self.tables@ =~= pre.tables@);
        let mut i: usize = 0;
        while i < module.tables.len()
            invariant
                inst.table_addrs@.len() == import_tables(module.imports@).len() + i,
                inst.mem_addrs@.len() == import_mems(module.imports@).len(),
                table_contents(self.tables@) == table_contents(pre.tables@) + fresh_tables(*module).take(i as int),
                forall|k: int| 0 <= k < i ==> (#[trigger] module.tables@[k]).limits.min <= TABLE_IMPL_LIMIT,
                extends(*self, pre, funcs_base, globals_base, tables_base, mems_base),
                pre == *old(self),
                no_import_missing(*old(self), *module, imports@),
                inst.elems@.len() == 0,
                inst.datas@.len() == 0,
                inst.exports@.len() <= module.exports@.len(),
                self.funcs@.len() == funcs_base + module.funcs@.len(),
                i <= module.tables@.len(),
                self.mems@.len() == mems_base,
                self.funcs@ == funcs_done,
                forall|k: int| 0 <= k < module.funcs@.len() ==> own_func(#[trigger] funcs_done[funcs_base + k], pre.instances@.len() as int, module.types@[module.funcs@[k] as int]),
                self.globals@ == globals_done,
                inst.func_addrs@ == inst_g.func_addrs@,
                inst.global_addrs@ == inst_g.global_addrs@,
                globals_done.len() == globals_base + module.globals@.len(),
                forall|k: int| 0 <= k < module.globals@.len() ==> #[trigger] globals_done[globals_base + k].ty == module.globals@[k].ty,
                self.tables@.len() == tables_base + i,
                inst.exports@.len() == 0,
                forall|k: int| 0 <= k < inst.func_addrs@.len() ==> #[trigger] inst.func_addrs@[k] < self.funcs@.len(),
            decreases module.tables@.len() - i,
        {
            let t = module.tables[i];
            let addr = self.tables.len();
            if t.limits.min as u64 > TABLE_IMPL_LIMIT {
                self.roll_back(funcs_base, globals_base, tables_base, mems_base);
                return Err(link("table size exceeds implementation limit"));
            }
            let mut elems: Vec<Value> = Vec::new();
            if elems.try_reserve(t.limits.min as usize).is_err() {
                self.roll_back(funcs_base, globals_base, tables_base, mems_base);
                return Err(link("cannot allocate table"));
            }
            let null = Value::null_of(t.elem);
            elems.resize(t.limits.min as usize, null);
            assert forall|j: int| 0 <= j < elems@.len() implies #[trigger] elems@[j] == null_value(t.elem) by {
                assert(cloned::<Value>(null, elems@[j]));
            }
            assert(elems@ =~= fresh_tables(*module)[i as int]);
            let ghost tc = table_contents(self.tables@);
            self.tables.push(TableInst { ty: t, elems });
            assert(self.tables@.take(tables_base as int) =~= pre.tables@);
            assert(table_contents(self.tables@) =~= tc.push(fresh_tables(*module)[i as int]));
            assert(fresh_tables(*module).take(i + 1) =~= fresh_tables(*module).take(i as int).push(fresh_tables(*module)[i as int]));
            inst.table_addrs.push(addr);
            i = i + 1;
        }
        assert(fresh_tables(*module).take(module.tables@.len() as int) =~= fresh_tables(*module));
        let ghost tables_done = self.tables@;
        assert(self.mems@ =~= pre.mems@);
        let mut i: usize = 0;
        while i < module.mems.len()
            invariant
                inst.table_addrs@.len() == import_tables(module.imports@).len() + module.tables@.len(),
                inst.mem_addrs@.len() == import_mems(module.imports@).len() + i,
                mem_contents(self.mems@) == mem_contents(pre.mems@) + fresh_mems(*module).take(i as int),
                forall|k: int| 0 <= k < i ==> (#[trigger] module.mems@[k]).limits.min * 65536 <= usize::MAX,
                self.tables@ == tables_done,
                extends(*self, pre, funcs_base, globals_base, tables_base, mems_base),
                pre == *old(self),
                no_import_missing(*old(self), *module, imports@),
                inst.elems@.len() == 0,
                inst.datas@.len() == 0,
                inst.exports@.len() <= module.exports@.len(),
                self.funcs@.len() == funcs_base + module.funcs@.len(),
                i <= module.mems@.len(),
                self.funcs@ == funcs_done,
                forall|k: int| 0 <= k < module.funcs@.len() ==> own_func(#[trigger] funcs_done[funcs_base + k], pre.instances@.len() as int, module.types@[module.funcs@[k] as int]),
                self.globals@ == globals_done,
                inst.func_addrs@ == inst_g.func_addrs@,
                inst.global_addrs@ == inst_g.global_addrs@,
                globals_done.len() == globals_base + module.globals@.len(),
                forall|k: int| 0 <= k < module.globals@.len() ==> #[trigger] globals_done[globals_base + k].ty == module.globals@[k].ty,
                self.tables@.len() == tables_base + module.tables@.len(),
                self.mems@.len() == mems_base + i,
                inst.exports@.len() == 0,
                forall|k: int| 0 <= k < inst.func_addrs@.len() ==> #[trigger] inst.func_addrs@[k] < self.funcs@.len(),
            decreases module.mems@.len() - i,
        {
            let mt = module.mems[i];
            let addr = self.mems.len();
            let bytes = match mem_bytes(mt.limits.min) {
                Some(b) => b,
                None => {
                    self.roll_back(funcs_base, globals_base, tables_base, mems_base);
                    return Err(link("memory size exceeds addressable range"));
                },
            };
            let mut data: Vec<u8> = Vec::new();
            if data.try_reserve(bytes).is_err() {
                self.roll_back(funcs_base, globals_base, tables_base, mems_base);
                return Err(link("cannot allocate memory"));
            }
            data.resize(bytes, 0u8);
            assert forall|j: int| 0 <= j < data@.len() implies #[trigger] data@[j] == 0 by {
                assert(cloned::<u8>(0u8, data@[j]));
            }
            assert(data@ =~= fresh_mems(*module)[i as int]);
            let ghost mc = mem_contents(self.mems@);
            self.mems.push(MemInst { ty: mt, data });
            assert(self.mems@.take(mems_base as int) =~= pre.mems@);
            assert(mem_contents(self.mems@) =~= mc.push(fresh_mems(*module)[i as int]));
            assert(fresh_mems(*module).take(i + 1) =~= fresh_mems(*module).take(i as int).push(fresh_mems(*module)[i as int]));
            inst.mem_addrs.push(addr);
            i = i + 1;
        }
        assert(fresh_mems(*module).take(module.mems@.len() as int) =~= fresh_mems(*module));
        let ghost mems_done = self.mems@;
        // 5. Element and data segment instances.
        let mut i: usize = 0;
        while i < module.elems.len()
            invariant
                inst.table_addrs@.len() == import_tables(module.imports@).len() + module.tables@.len(),
                inst.mem_addrs@.len() == import_mems(module.imports@).len() + module.mems@.len(),
                self.tables@ == tables_done,
                self.mems@ == mems_done,
                forall|k: int| 0 <= k < i ==> #[trigger] inst.elems@[k].elems@ == segment_values(globals_done, inst_g, *module)[k],
                extends(*self, pre, funcs_base, globals_base, tables_base, mems_base),
                pre == *old(self),
                no_import_missing(*old(self), *module, imports@),
                inst.datas@.len() == 0,
                inst.exports@.len() <= module.exports@.len(),
                self.funcs@.len() == funcs_base + module.funcs@.len(),
                i <= module.elems@.len(),
                self.funcs@ == funcs_done,
                forall|k: int| 0 <= k < module.funcs@.len() ==> own_func(#[trigger] funcs_done[funcs_base + k], pre.instances@.len() as int, module.types@[module.funcs@[k] as int]),
                self.globals@ == globals_done,
                inst.func_addrs@ == inst_g.func_addrs@,
                inst.global_addrs@ == inst_g.global_addrs@,
                globals_done.len() == globals_base + module.globals@.len(),
                forall|k: int| 0 <= k < module.globals@.len() ==> #[trigger] globals_done[globals_base + k].ty == module.globals@[k].ty,
                self.tables@.len() == tables_base + module.tables@.len(),
                self.mems@.len() == mems_base + module.mems@.len(),
                inst.elems@.len() == i,
                inst.exports@.len() == 0,
                forall|k: int| 0 <= k < inst.func_addrs@.len() ==> #[trigger] inst.func_addrs@[k] < self.funcs@.len(),
            decreases module.elems@.len() - i,
        {
            let elems = match self.eval_inits(&inst, &module.elems[i].init) {
                Some(v) => v,
                None => {
                    self.roll_back(funcs_base, globals_base, tables_base, mems_base);
                    return Err(link("invalid constant expression"));
                },
            };
            proof {
                lemma_const_same_each(globals_done, inst_g, inst);
                assert(elems@ =~= segment_values(globals_done, inst_g, *module)[i as int]);
            }
            inst.elems.push(ElemInst { elems });
            i = i + 1;
        }
        let ghost elems_done = inst.elems@;
        let mut i: usize = 0;
        while i < module.datas.len()
            invariant
                inst.table_addrs@.len() == import_tables(module.imports@).len() + module.tables@.len(),
                inst.mem_addrs@.len() == import_mems(module.imports@).len() + module.mems@.len(),
                self.tables@ == tables_done,
                self.mems@ == mems_done,
                inst.elems@ == elems_done,
                extends(*self, pre, funcs_base, globals_base, tables_base, mems_base),
                pre == *old(self),
                no_import_missing(*old(self), *module, imports@),
                inst.exports@.len() == 0,
                self.funcs@.len() == funcs_base + module.funcs@.len(),
                forall|k: int| 0 <= k < inst.func_addrs@.len() ==> #[trigger] inst.func_addrs@[k] < self.funcs@.len(),
                inst.exports@.len() <= module.exports@.len(),
                i <= module.datas@.len(),
                self.funcs@ == funcs_done,
                forall|k: int| 0 <= k < module.funcs@.len() ==> own_func(#[trigger] funcs_done[funcs_base + k], pre.instances@.len() as int, module.types@[module.funcs@[k] as int]),
                self.globals@ == globals_done,
                inst.func_addrs@ == inst_g.func_addrs@,
                inst.global_addrs@ == inst_g.global_addrs@,
                globals_done.len() == globals_base + module.globals@.len(),
                forall|k: int| 0 <= k < module.globals@.len() ==> #[trigger] globals_done[globals_base + k].ty == module.globals@[k].ty,
                self.tables@.len() == tables_base + module.tables@.len(),
                self.mems@.len() == mems_base + module.mems@.len(),
                inst.datas@.len() == i,
            decreases module.datas@.len() - i,
        {
            inst.datas.push(DataInst { bytes: crate::bytes::copy_bytes(module.datas[i].bytes.as_slice()) });
            i = i + 1;
        }
        // 6. Exports.
        let mut i: usize = 0;
        while i < module.exports.len()
            invariant
                inst.func_addrs@.len() == import_funcs(module.imports@).len() + module.funcs@.len(),
                inst.table_addrs@.len() == import_tables(module.imports@).len() + module.tables@.len(),
                inst.mem_addrs@.len() == import_mems(module.imports@).len() + module.mems@.len(),
                inst.global_addrs@.len() == import_globals(module.imports@).len() + module.globals@.len(),
                self.tables@ == tables_done,
                self.mems@ == mems_done,
                inst.elems@ == elems_done,
                extends(*self, pre, funcs_base, globals_base, tables_base, mems_base),
                pre == *old(self),
                no_import_missing(*old(self), *module, imports@),
                inst.exports@.len() <= module.exports@.len(),
                self.funcs@.len() == funcs_base + module.funcs@.len(),
                i <= module.exports@.len(),
                self.funcs@ == funcs_done,
                forall|k: int| 0 <= k < module.funcs@.len() ==> own_func(#[trigger] funcs_done[funcs_base + k], pre.instances@.len() as int, module.types@[module.funcs@[k] as int]),
                self.globals@ == globals_done,
                inst.func_addrs@ == inst_g.func_addrs@,
                inst.global_addrs@ == inst_g.global_addrs@,
                globals_done.len() == globals_base + module.globals@.len(),
                forall|k: int| 0 <= k < module.globals@.len() ==> #[trigger] globals_done[globals_base + k].ty == module.globals@[k].ty,
                self.tables@.len() == tables_base + module.tables@.len(),
                self.mems@.len() == mems_base + module.mems@.len(),
                inst.exports@.len() == i,
                forall|k: int| 0 <= k < i ==> export_matches(#[trigger] inst.exports@[k], module.exports@[k]),
                forall|k: int| 0 <= k < inst.func_addrs@.len() ==> #[trigger] inst.func_addrs@[k] < self.funcs@.len(),
            decreases module.exports@.len() - i,
        {
            let ex = &module.exports[i];
            let ev = match ex.desc {
                ExportDesc::Func(k) => if (k as usize) < inst.func_addrs.len() { Some(ExternVal::Func(inst.func_addrs[k as usize])) } else { None },
                ExportDesc::Table(k) => if (k as usize) < inst.table_addrs.len() { Some(ExternVal::Table(inst.table_addrs[k as usize])) } else { None },
                ExportDesc::Mem(k) => if (k as usize) < inst.mem_addrs.len() { Some(ExternVal::Mem(inst.mem_addrs[k as usize])) } else { None },
                ExportDesc::Global(k) => if (k as usize) < inst.global_addrs.len() { Some(ExternVal::Global(inst.global_addrs[k as usize])) } else { None },
            };
            match ev {
                Some(ev) => inst.exports.push((ex.name.clone(), ev)),
                None => {
                    self.roll_back(funcs_base, globals_base, tables_base, mems_base);
                    return Err(link("unknown export target"));
                },
            }
            i = i + 1;
        }
        let start = match module.start {
            Some(s) => {
                if (s as usize) < inst.func_addrs.len() {
                    Some(inst.func_addrs[s as usize])
                } else {
                    self.roll_back(funcs_base, globals_base, tables_base, mems_base);
                    return Err(link("unknown start function"));
                }
            },
            None => None,
        };
        let id = self.instances.len();
        let ghost inst_p = inst;
        self.instances.push(inst);
        // 7. Active element segments, in order (earlier effects persist on trap).
        let applied = self.apply_elems(module, id);
        proof {
            let fin = self.instances@[id as int];
            lemma_const_same_each(globals_done, inst_g, fin);
            assert forall|k: int| 0 <= k < module.elems@.len() implies #[trigger] inst_segments(inst_p)[k]
                == segment_values(self.globals@, fin, *module)[k] by {
                assert(segment_values(globals_done, inst_g, *module)[k] =~= segment_values(self.globals@, fin, *module)[k]);
            }
            assert(inst_segments(inst_p) =~= segment_values(self.globals@, fin, *module));
            assert(table_contents(tables_done) =~= table_contents(old(self).tables@) + fresh_tables(*module));
            lemma_elems_same_inst(
                table_contents(tables_done),
                self.globals@,
                inst_p,
                fin,
                inst_segments(inst_p),
                *module,
                module.elems@.len(),
            );
        }
        if let Err(e) = applied {
            proof {
                let fin = self.instances@[id as int];
                let j = choose|j: nat| j < module.elems@.len() && #[trigger] elems_stopped(
                    table_contents(tables_done),
                    globals_done,
                    inst_p,
                    inst_segments(inst_p),
                    *module,
                    j,
                    table_contents(self.tables@),
                );
                lemma_elems_same_inst(table_contents(tables_done), self.globals@, inst_p, fin, inst_segments(inst_p), *module, j);
                lemma_elems_same_inst(table_contents(tables_done), self.globals@, inst_p, fin, inst_segments(inst_p), *module, j + 1);
                assert(elems_stopped(
                    table_contents(old(self).tables@) + fresh_tables(*module),
                    self.globals@,
                    fin,
                    segment_values(self.globals@, fin, *module),
                    *module,
                    j,
                    table_contents(self.tables@),
                ));
                assert(mem_contents(self.mems@) =~= mem_contents(old(self).mems@) + fresh_mems(*module));
            }
            return Err(e);
        }
        // 8. Active data segments, in order.
        let ghost s1 = *self;
        let applied = self.apply_datas(module, id);
        proof {
            let fin = self.instances@[id as int];
            lemma_const_same_each(globals_done, inst_g, fin);
            assert forall|k: int| 0 <= k < module.elems@.len() implies #[trigger] segment_values(s1.globals@, s1.instances@[id as int], *module)[k]
                == segment_values(self.globals@, fin, *module)[k] by {
                lemma_const_same_each(globals_done, inst_g, s1.instances@[id as int]);
                assert(segment_values(s1.globals@, s1.instances@[id as int], *module)[k] =~= segment_values(self.globals@, fin, *module)[k]);
            }
            assert(segment_values(s1.globals@, s1.instances@[id as int], *module) =~= segment_values(self.globals@, fin, *module));
            lemma_elems_same_inst(
                table_contents(old(self).tables@) + fresh_tables(*module),
                self.globals@,
                s1.instances@[id as int],
                fin,
                segment_values(self.globals@, fin, *module),
                *module,
                module.elems@.len(),
            );
            assert(mem_contents(mems_done) =~= mem_contents(old(self).mems@) + fresh_mems(*module));
            lemma_datas_same_inst(mem_contents(mems_done), self.globals@, s1.instances@[id as int], fin, *module, module.datas@.len());
        }
        if let Err(e) = applied {
            proof {
                let fin = self.instances@[id as int];
                let j = choose|j: nat| j < module.datas@.len() && #[trigger] datas_stopped(
                    mem_contents(mems_done),
                    self.globals@,
                    s1.instances@[id as int],
                    *module,
                    j,
                    mem_contents(self.mems@),
                );
                lemma_datas_same_inst(mem_contents(mems_done), self.globals@, s1.instances@[id as int], fin, *module, j);
                lemma_datas_same_inst(mem_contents(mems_done), self.globals@, s1.instances@[id as int], fin, *module, j + 1);
                assert(datas_stopped(
                    mem_contents(old(self).mems@) + fresh_mems(*module),
                    self.globals@,
                    fin,
                    *module,
                    j,
                    mem_contents(self.mems@),
                ));
            }
            return Err(e);
        }
        proof {
            let fin = self.instances@[id as int];
            assert(fin.func_addrs@.take(inst_g.func_addrs@.len() as int) =~= inst_g.func_addrs@);
            assert(fin.global_addrs@.take(inst_g.global_addrs@.len() as int) =~= inst_g.global_addrs@);
            assert(self.globals@.take(globals_done.len() as int) =~= globals_done);
            assert forall|k: int| 0 <= k < module.globals@.len() implies const_result(self.globals@, fin, module.globals@[k].init.instrs@)
                == Some(#[trigger] self.globals@[old(self).globals@.len() + k].val) by {
                assert(const_ok(globals_done, inst_g, module.globals@[k].init.instrs@));
                lemma_const_widen(globals_done, inst_g, self.globals@, fin, module.globals@[k].init.instrs@);
            }
        }
        Ok(Instantiated { id, start })
    }
}

impl Store {
    /// Applies the active element segments of instance `id`, in order.
    fn apply_elems(&mut self, module: &Module, id: usize) -> (r: Result<(), InstError>)
        requires
            old(self).wf(),
            id < old(self).instances@.len(),
        ensures
            r is Ok <==> elems_applied(
                table_contents(old(self).tables@),
                old(self).globals@,
                old(self).instances@[id as int],
                inst_segments(old(self).instances@[id as int]),
                *module,
                module.elems@.len(),
            ) is Some,
            r is Ok ==> elems_applied(
                table_contents(old(self).tables@),
                old(self).globals@,
                old(self).instances@[id as int],
                inst_segments(old(self).instances@[id as int]),
                *module,
                module.elems@.len(),
            ) == Some(table_contents(final(self).tables@)),
            final(self).mems == old(self).mems,
            r is Err ==> exists|j: nat| j < module.elems@.len() && #[trigger] elems_stopped(
                table_contents(old(self).tables@),
                old(self).globals@,
                old(self).instances@[id as int],
                inst_segments(old(self).instances@[id as int]),
                *module,
                j,
                table_contents(final(self).tables@),
            ),
            final(self).instances@[id as int].mem_addrs == old(self).instances@[id as int].mem_addrs,
            final(self).instances@[id as int].table_addrs == old(self).instances@[id as int].table_addrs,
            final(self).instances@[id as int].datas@.len() == old(self).instances@[id as int].datas@.len(),
            final(self).wf(),
            final(self).funcs@.len() == old(self).funcs@.len(),
            final(self).globals@.len() == old(self).globals@.len(),
            final(self).tables@.len() == old(self).tables@.len(),
            final(self).mems@.len() == old(self).mems@.len(),
            final(self).instances@.len() == old(self).instances@.len(),
            final(self).instances@[id as int].exports == old(self).instances@[id as int].exports,
            final(self).instances@[id as int].func_addrs == old(self).instances@[id as int].func_addrs,
            final(self).instances@[id as int].global_addrs == old(self).instances@[id as int].global_addrs,
            final(self).funcs == old(self).funcs,
            final(self).globals == old(self).globals,
            r is Err ==> r->Err_0 is Trap,
    {
        let ghost c0 = table_contents(self.tables@);
        let ghost i0 = self.instances@[id as int];
        let mut i: usize = 0;
        while i < module.elems.len()
            invariant
                self.funcs == old(self).funcs,
                self.globals == old(self).globals,
                self.wf(),
                id < self.instances@.len(),
                self.funcs@.len() == old(self).funcs@.len(),
                self.globals@.len() == old(self).globals@.len(),
                self.tables@.len() == old(self).tables@.len(),
                self.mems@.len() == old(self).mems@.len(),
                self.instances@.len() == old(self).instances@.len(),
                self.instances@[id as int].exports == old(self).instances@[id as int].exports,
                self.instances@[id as int].func_addrs == old(self).instances@[id as int].func_addrs,
                self.instances@[id as int].global_addrs == old(self).instances@[id as int].global_addrs,
                self.instances@[id as int].table_addrs == old(self).instances@[id as int].table_addrs,
                self.instances@[id as int].elems@.len() == old(self).instances@[id as int].elems@.len(),
                forall|j: int| i <= j < i0.elems@.len() ==> #[trigger] self.instances@[id as int].elems@[j].elems@ == i0.elems@[j].elems@,
                elems_applied(c0, old(self).globals@, i0, inst_segments(i0), *module, i as nat) == Some(table_contents(self.tables@)),
                i0 == old(self).instances@[id as int],
                c0 == table_contents(old(self).tables@),
                self.mems == old(self).mems,
                self.instances@[id as int].mem_addrs == old(self).instances@[id as int].mem_addrs,
                self.instances@[id as int].datas@.len() == old(self).instances@[id as int].datas@.len(),
                i <= module.elems@.len(),
            decreases module.elems@.len() - i,
        {
            let ghost c = table_contents(self.tables@);
            proof {
                lemma_const_same_each(self.globals@, i0, self.instances@[id as int]);
            }
            match &module.elems[i].mode {
                ElemMode::Active { table, offset } => {
                    let nt = self.instances[id].table_addrs.len();
                    if (*table as usize) >= nt || i >= self.instances[id].elems.len() {
                        proof {
                            lemma_elems_stay_none(c0, old(self).globals@, i0, inst_segments(i0), *module, (i + 1) as nat, module.elems@.len());
                            assert(elems_stopped(c0, old(self).globals@, i0, inst_segments(i0), *module, i as nat, table_contents(self.tables@)));
                        }
                        return Err(InstError::Trap(crate::exec::fault()));
                    }
                    let taddr = self.instances[id].table_addrs[*table as usize];
                    if taddr >= self.tables.len() {
                        proof {
                            lemma_elems_stay_none(c0, old(self).globals@, i0, inst_segments(i0), *module, (i + 1) as nat, module.elems@.len());
                            assert(elems_stopped(c0, old(self).globals@, i0, inst_segments(i0), *module, i as nat, table_contents(self.tables@)));
                        }
                        return Err(InstError::Trap(crate::exec::fault()));
                    }
                    let off = match self.eval_const(&self.instances[id], offset) {
                        Some(Value::I32(v)) => v,
                        _ => {
                            proof {
                            lemma_elems_stay_none(c0, old(self).globals@, i0, inst_segments(i0), *module, (i + 1) as nat, module.elems@.len());
                            assert(elems_stopped(c0, old(self).globals@, i0, inst_segments(i0), *module, i as nat, table_contents(self.tables@)));
                        }
                            return Err(InstError::Trap(crate::exec::fault()));
                        },
                    };
                    let n = self.instances[id].elems[i].elems.len();
                    let seg = crate::exec::copy_range(&self.instances[id].elems[i].elems, 0, n);
                    if off as u128 + seg.len() as u128 > self.tables[taddr].elems.len() as u128 {
                        proof {
                            lemma_elems_stay_none(c0, old(self).globals@, i0, inst_segments(i0), *module, (i + 1) as nat, module.elems@.len());
                            assert(elems_stopped(c0, old(self).globals@, i0, inst_segments(i0), *module, i as nat, table_contents(self.tables@)));
                        }
                        return Err(InstError::Trap(Trap::new("out of bounds table access")));
                    }
                    crate::exec::write_range(&mut self.tables[taddr].elems, off as usize, &seg);
                    self.instances[id].elems[i].elems.clear();
                    assert(seg@ =~= inst_segments(i0)[i as int]);
                    assert(table_contents(self.tables@) =~= c.update(taddr as int, overwrite(c[taddr as int], off as int, seg@)));
                },
                ElemMode::Declarative => {
                    if i < self.instances[id].elems.len() {
                        self.instances[id].elems[i].elems.clear();
                    }
                },
                ElemMode::Passive => {},
            }
            i = i + 1;
        }
        Ok(())
    }

    /// Applies the active data segments of instance `id`, in order.
    fn apply_datas(&mut self, module: &Module, id: usize) -> (r: Result<(), InstError>)
        requires
            old(self).wf(),
            id < old(self).instances@.len(),
        ensures
            r is Ok <==> datas_applied(
                mem_contents(old(self).mems@),
                old(self).globals@,
                old(self).instances@[id as int],
                *module,
                module.datas@.len(),
            ) is Some,
            r is Ok ==> datas_applied(
                mem_contents(old(self).mems@),
                old(self).globals@,
                old(self).instances@[id as int],
                *module,
                module.datas@.len(),
            ) == Some(mem_contents(final(self).mems@)),
            final(self).wf(),
            final(self).funcs@.len() == old(self).funcs@.len(),
            final(self).globals@.len() == old(self).globals@.len(),
            final(self).tables@.len() == old(self).tables@.len(),
            final(self).mems@.len() == old(self).mems@.len(),
            final(self).instances@.len() == old(self).instances@.len(),
            final(self).instances@[id as int].exports == old(self).instances@[id as int].exports,
            final(self).instances@[id as int].func_addrs == old(self).instances@[id as int].func_addrs,
            final(self).instances@[id as int].global_addrs == old(self).instances@[id as int].global_addrs,
            final(self).funcs == old(self).funcs,
            final(self).globals == old(self).globals,
            final(self).tables == old(self).tables,
            r is Err ==> exists|j: nat| j < module.datas@.len() && #[trigger] datas_stopped(
                mem_contents(old(self).mems@),
                old(self).globals@,
                old(self).instances@[id as int],
                *module,
                j,
                mem_contents(final(self).mems@),
            ),
            final(self).instances@[id as int].mem_addrs == old(self).instances@[id as int].mem_addrs,
            final(self).instances@[id as int].table_addrs == old(self).instances@[id as int].table_addrs,
            final(self).instances@[id as int].datas@.len() == old(self).instances@[id as int].datas@.len(),
            r is Err ==> r->Err_0 is Trap,
    {
        let ghost c0 = mem_contents(self.mems@);
        let ghost i0 = self.instances@[id as int];
        let mut i: usize = 0;
        while i < module.datas.len()
            invariant
                self.funcs == old(self).funcs,
                self.globals == old(self).globals,
                self.tables == old(self).tables,
                self.instances@[id as int].table_addrs == old(self).instances@[id as int].table_addrs,
                self.wf(),
                id < self.instances@.len(),
                self.funcs@.len() == old(self).funcs@.len(),
                self.globals@.len() == old(self).globals@.len(),
                self.tables@.len() == old(self).tables@.len(),
                self.mems@.len() == old(self).mems@.len(),
                self.instances@.len() == old(self).instances@.len(),
                self.instances@[id as int].exports == old(self).instances@[id as int].exports,
                self.instances@[id as int].func_addrs == old(self).instances@[id as int].func_addrs,
                self.instances@[id as int].global_addrs == old(self).instances@[id as int].global_addrs,
                self.instances@[id as int].mem_addrs == old(self).instances@[id as int].mem_addrs,
                self.instances@[id as int].datas@.len() == old(self).instances@[id as int].datas@.len(),
                datas_applied(c0, old(self).globals@, i0, *module, i as nat) == Some(mem_contents(self.mems@)),
                i0 == old(self).instances@[id as int],
                c0 == mem_contents(old(self).mems@),
                i <= module.datas@.len(),
            decreases module.datas@.len() - i,
        {
            let ghost c = mem_contents(self.mems@);
            proof {
                lemma_const_same_each(self.globals@, i0, self.instances@[id as int]);
            }
            match &module.datas[i].mode {
                DataMode::Active { mem, offset } => {
                    let nm = self.instances[id].mem_addrs.len();
                    if (*mem as usize) >= nm || i >= self.instances[id].datas.len() {
                        proof {
                            lemma_datas_stay_none(c0, old(self).globals@, i0, *module, (i + 1) as nat, module.datas@.len());
                            assert(datas_stopped(c0, old(self).globals@, i0, *module, i as nat, mem_contents(self.mems@)));
                        }
                        return Err(InstError::Trap(crate::exec::fault()));
                    }
                    let maddr = self.instances[id].mem_addrs[*mem as usize];
                    if maddr >= self.mems.len() {
                        proof {
                            lemma_datas_stay_none(c0, old(self).globals@, i0, *module, (i + 1) as nat, module.datas@.len());
                            assert(datas_stopped(c0, old(self).globals@, i0, *module, i as nat, mem_contents(self.mems@)));
                        }
                        return Err(InstError::Trap(crate::exec::fault()));
                    }
                    let off = match self.eval_const(&self.instances[id], offset) {
                        Some(Value::I32(v)) => v,
                        _ => {
                            proof {
                            lemma_datas_stay_none(c0, old(self).globals@, i0, *module, (i + 1) as nat, module.datas@.len());
                            assert(datas_stopped(c0, old(self).globals@, i0, *module, i as nat, mem_contents(self.mems@)));
                        }
                            return Err(InstError::Trap(crate::exec::fault()));
                        },
                    };
                    let bytes = &module.datas[i].bytes;
                    if off as u128 + bytes.len() as u128 > self.mems[maddr].data.len() as u128 {
                        proof {
                            lemma_datas_stay_none(c0, old(self).globals@, i0, *module, (i + 1) as nat, module.datas@.len());
                            assert(datas_stopped(c0, old(self).globals@, i0, *module, i as nat, mem_contents(self.mems@)));
                        }
                        return Err(InstError::Trap(Trap::new("out of bounds memory access")));
                    }
                    crate::exec::write_range(&mut self.mems[maddr].data, off as usize, bytes);
                    self.instances[id].datas[i].bytes.clear();
                    assert(mem_contents(self.mems@) =~= c.update(maddr as int, overwrite(c[maddr as int], off as int, bytes@)));
                },
                DataMode::Passive => {},
            }
            i = i + 1;
        }
        Ok(())
    }
}

} // verus!
