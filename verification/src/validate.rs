//! WebAssembly 2.0 validation: module-level checks, constant expressions,
//! and the operand/control-stack type checker for function bodies (with
//! bottom values for the polymorphic stack of unreachable code).
use vstd::prelude::*;
use crate::error::ValidateError;
use crate::module::{
    BlockType, Code, ConstExpr, Data, DataMode, Elem, ElemMode, ExportDesc, Global, Import, ImportDesc,
    Instr, LoadOp, Module, NumOp, SimdLaneOp, SimdMemOp, SimdOp, StoreOp,
};
use crate::text::{join3, text, with_dec};
use crate::types::{
    FuncType, GlobalType, MemType, RefType, TableType, ValType, copy_vals, reftype_val, vals_eq,
};
use crate::typing::{
    Kind, Sig, TypeEnv, TypeFrame, TypeState, access_sig, block_sig, body_checks, body_start, keep_all,
    label_types, load_type, memory_sig, num_type, numeric_sig, plain_sig, pop_all, pop_any, pop_frame,
    pop_one, push_all, push_frame, set_unreachable, simd_mem_type, simd_type, step_spec, store_type,
    lane_type, table_targets, with_stack,
};

verus! {

fn err(msg: &str) -> (e: ValidateError)
    ensures
        e.msg@ == msg@,
{
    ValidateError { msg: text(msg) }
}

/// Module-wide index spaces, imports first.
struct Ctx<'m> {
    m: &'m Module,
    /// Type indices of all functions.
    funcs: Vec<u32>,
    tables: Vec<TableType>,
    mems: Vec<MemType>,
    globals: Vec<GlobalType>,
    num_imported_globals: usize,
    /// Functions declared for use by `ref.func`.
    refs: Vec<bool>,
}

impl<'m> Ctx<'m> {
    spec fn wf(&self) -> bool {
        &&& self.num_imported_globals <= self.globals@.len()
        &&& self.refs@.len() == self.funcs@.len()
        &&& forall|i: int| 0 <= i < self.funcs@.len() ==> self.funcs@[i] < self.m.types@.len()
    }
}

/// A table type is valid when its maximum, if any, is at least its minimum.
pub open spec fn tabletype_ok(t: TableType) -> bool {
    t.limits.max matches Some(max) ==> max >= t.limits.min
}

/// A memory type is valid when its limits lie within 65536 pages and its
/// maximum, if any, is at least its minimum.
pub open spec fn memtype_ok(t: MemType) -> bool {
    &&& t.limits.min <= 65536
    &&& t.limits.max matches Some(max) ==> max <= 65536 && max >= t.limits.min
}

fn check_tabletype(t: &TableType) -> (r: Result<(), ValidateError>)
    ensures
        r is Ok <==> tabletype_ok(*t),
        r matches Err(e) ==> e.msg@ == "size minimum must not be greater than maximum"@,
{
    if let Some(max) = t.limits.max {
        if max < t.limits.min {
            return Err(err("size minimum must not be greater than maximum"));
        }
    }
    Ok(())
}

fn check_memtype(t: &MemType) -> (r: Result<(), ValidateError>)
    ensures
        r is Ok <==> memtype_ok(*t),
        r matches Err(e) ==> ((t.limits.min > 65536 || (t.limits.max matches Some(max) && max
            > 65536)) ==> e.msg@ == "memory size must be at most 65536 pages"@),
        r matches Err(e) ==> (!(t.limits.min > 65536 || (t.limits.max matches Some(max) && max
            > 65536)) ==> e.msg@ == "size minimum must not be greater than maximum"@),
{
    let max_pages: u32 = 65536;
    if t.limits.min > max_pages {
        return Err(err("memory size must be at most 65536 pages"));
    }
    if let Some(max) = t.limits.max {
        if max > max_pages {
            return Err(err("memory size must be at most 65536 pages"));
        }
        if max < t.limits.min {
            return Err(err("size minimum must not be greater than maximum"));
        }
    }
    Ok(())
}

/// The type a constant instruction pushes (`None` for other instructions).
pub open spec fn const_instr_type(globals: Seq<GlobalType>, i: Instr) -> Option<ValType> {
    match i {
        Instr::I32Const(_) => Some(ValType::I32),
        Instr::I64Const(_) => Some(ValType::I64),
        Instr::F32Const(_) => Some(ValType::F32),
        Instr::F64Const(_) => Some(ValType::F64),
        Instr::V128Const(_) => Some(ValType::V128),
        Instr::RefNull(t) => Some(reftype_val(t)),
        Instr::RefFunc { .. } => Some(ValType::FuncRef),
        Instr::GlobalGet { idx } => if idx < globals.len() {
            Some(globals[idx as int].val)
        } else {
            None
        },
        _ => None,
    }
}

/// Whether instruction `k` of a constant expression is allowed: `end` only
/// last; constants; `ref.func` of a known function; `global.get` of an
/// immutable imported global.
pub open spec fn const_instr_ok(
    e: Seq<Instr>,
    k: int,
    n_funcs: nat,
    globals: Seq<GlobalType>,
    n_imported: nat,
) -> bool {
    match e[k] {
        Instr::End => k == e.len() - 1,
        Instr::I32Const(_) | Instr::I64Const(_) | Instr::F32Const(_) | Instr::F64Const(_)
        | Instr::V128Const(_) | Instr::RefNull(_) => true,
        Instr::RefFunc { func } => func < n_funcs,
        Instr::GlobalGet { idx } => idx < n_imported && idx < globals.len()
            && !globals[idx as int].mutable,
        _ => false,
    }
}

/// A constant expression is valid with type `want`: every instruction is
/// allowed, and it pushes exactly one value, of type `want`.
pub open spec fn const_expr_valid(
    e: Seq<Instr>,
    want: ValType,
    n_funcs: nat,
    globals: Seq<GlobalType>,
    n_imported: nat,
) -> bool {
    let pushes = if e.len() > 0 && e.last() is End {
        e.len() - 1
    } else {
        e.len() as int
    };
    &&& forall|k: int| 0 <= k < e.len() ==> const_instr_ok(e, k, n_funcs, globals, n_imported)
    &&& pushes == 1
    &&& const_instr_type(globals, e[0]) == Some(want)
}

/// Checks a constant expression against its expected type.
fn check_const_expr(ctx: &Ctx, e: &ConstExpr, want: ValType) -> (r: Result<(), ValidateError>)
    requires
        ctx.wf(),
    ensures
        r is Ok <==> const_expr_valid(
            e.instrs@,
            want,
            ctx.funcs@.len(),
            ctx.globals@,
            ctx.num_imported_globals as nat,
        ),
{
    let ghost s = e.instrs@;
    let ghost gs = ctx.globals@;
    let ghost nf = ctx.funcs@.len();
    let ghost ni = ctx.num_imported_globals as nat;
    let mut stack: Vec<ValType> = Vec::new();
    let n = e.instrs.len();
    let mut i: usize = 0;
    while i < n
        invariant
            ctx.wf(),
            n == s.len(),
            s == e.instrs@,
            gs == ctx.globals@,
            nf == ctx.funcs@.len(),
            ni == ctx.num_imported_globals,
            i <= n,
            forall|k: int| 0 <= k < i ==> const_instr_ok(s, k, nf, gs, ni),
            stack@.len() == i - (if i > 0 && s[i - 1] is End {
                1int
            } else {
                0int
            }),
            stack@.len() > 0 ==> const_instr_type(gs, s[0]) == Some(stack@[0]),
        decreases n - i,
    {
        proof {
            if i > 0 {
                assert(const_instr_ok(s, i - 1, nf, gs, ni));
            }
        }
        let t = match &e.instrs[i] {
            Instr::End => {
                if i != n - 1 {
                    { proof { assert(!const_instr_ok(s, i as int, nf, gs, ni)); } return Err(err("constant expression required")); }
                }
                None
            },
            Instr::I32Const(_) => Some(ValType::I32),
            Instr::I64Const(_) => Some(ValType::I64),
            Instr::F32Const(_) => Some(ValType::F32),
            Instr::F64Const(_) => Some(ValType::F64),
            Instr::V128Const(_) => Some(ValType::V128),
            Instr::RefNull(t) => Some(t.val()),
            Instr::RefFunc { func } => {
                if *func as usize >= ctx.funcs.len() {
                    { proof { assert(!const_instr_ok(s, i as int, nf, gs, ni)); } return Err(err("unknown function")); }
                }
                Some(ValType::FuncRef)
            },
            Instr::GlobalGet { idx } => {
                let g = *idx as usize;
                if g >= ctx.num_imported_globals {
                    // The initializer context only has the imported globals.
                    if g < ctx.globals.len() {
                        { proof { assert(!const_instr_ok(s, i as int, nf, gs, ni)); } return Err(err("constant expression required")); }
                    }
                    { proof { assert(!const_instr_ok(s, i as int, nf, gs, ni)); } return Err(err("unknown global")); }
                }
                if ctx.globals[g].mutable {
                    { proof { assert(!const_instr_ok(s, i as int, nf, gs, ni)); } return Err(err("constant expression required")); }
                }
                Some(ctx.globals[g].val)
            },
            _ => {
                proof {
                    assert(!const_instr_ok(s, i as int, nf, gs, ni));
                }
                return Err(err("constant expression required"));
            },
        };
        if let Some(t) = t {
            stack.push(t);
        }
        proof {
            assert(const_instr_ok(s, i as int, nf, gs, ni));
            if i == 0 && t is Some {
                assert(const_instr_type(gs, s[0]) == t);
            }
        }
        i = i + 1;
    }
    proof {
        if n > 0 {
            assert(const_instr_ok(s, n - 1, nf, gs, ni));
        }
    }
    if stack.len() != 1 || stack[0] != want {
        return Err(err("type mismatch"));
    }
    Ok(())
}


// ---- index spaces and module-level validity ----

/// Type indices of the imported functions, in order.
pub open spec fn import_funcs(imps: Seq<Import>) -> Seq<u32>
    decreases imps.len(),
{
    if imps.len() == 0 {
        Seq::empty()
    } else {
        let rest = import_funcs(imps.drop_last());
        match imps.last().desc {
            ImportDesc::Func(t) => rest.push(t),
            _ => rest,
        }
    }
}

/// Types of the imported tables, in order.
pub open spec fn import_tables(imps: Seq<Import>) -> Seq<TableType>
    decreases imps.len(),
{
    if imps.len() == 0 {
        Seq::empty()
    } else {
        let rest = import_tables(imps.drop_last());
        match imps.last().desc {
            ImportDesc::Table(t) => rest.push(t),
            _ => rest,
        }
    }
}

/// Types of the imported memories, in order.
pub open spec fn import_mems(imps: Seq<Import>) -> Seq<MemType>
    decreases imps.len(),
{
    if imps.len() == 0 {
        Seq::empty()
    } else {
        let rest = import_mems(imps.drop_last());
        match imps.last().desc {
            ImportDesc::Mem(t) => rest.push(t),
            _ => rest,
        }
    }
}

/// Types of the imported globals, in order.
pub open spec fn import_globals(imps: Seq<Import>) -> Seq<GlobalType>
    decreases imps.len(),
{
    if imps.len() == 0 {
        Seq::empty()
    } else {
        let rest = import_globals(imps.drop_last());
        match imps.last().desc {
            ImportDesc::Global(t) => rest.push(t),
            _ => rest,
        }
    }
}

/// The function index space: type indices, imports first.
pub open spec fn func_space(m: Module) -> Seq<u32> {
    import_funcs(m.imports@) + m.funcs@
}

/// The table index space.
pub open spec fn table_space(m: Module) -> Seq<TableType> {
    import_tables(m.imports@) + m.tables@
}

/// The memory index space.
pub open spec fn mem_space(m: Module) -> Seq<MemType> {
    import_mems(m.imports@) + m.mems@
}

/// The global index space.
pub open spec fn global_space(m: Module) -> Seq<GlobalType> {
    import_globals(m.imports@) + m.globals@.map_values(|g: Global| g.ty)
}

/// A constant expression of `m` is valid with type `want` (its context
/// holds all functions but only the imported globals).
pub open spec fn module_const_ok(m: Module, e: ConstExpr, want: ValType) -> bool {
    const_expr_valid(
        e.instrs@,
        want,
        func_space(m).len(),
        global_space(m),
        import_globals(m.imports@).len(),
    )
}

/// Whether an import is well-typed.
pub open spec fn import_ok(m: Module, i: Import) -> bool {
    match i.desc {
        ImportDesc::Func(t) => t < m.types@.len(),
        ImportDesc::Table(t) => tabletype_ok(t),
        ImportDesc::Mem(t) => memtype_ok(t),
        ImportDesc::Global(_) => true,
    }
}

/// Whether an element segment is valid.
pub open spec fn elem_ok(m: Module, e: Elem) -> bool {
    &&& forall|k: int| 0 <= k < e.init@.len() ==> module_const_ok(m, #[trigger] e.init@[k], reftype_val(e.ty))
    &&& (e.mode matches ElemMode::Active { table, offset } ==> table < table_space(m).len()
        && table_space(m)[table as int].elem == e.ty && module_const_ok(m, offset, ValType::I32))
}

/// Whether a data segment is valid.
pub open spec fn data_ok(m: Module, d: Data) -> bool {
    d.mode matches DataMode::Active { mem, offset } ==> mem < mem_space(m).len() && module_const_ok(
        m,
        offset,
        ValType::I32,
    )
}

/// Whether an export names an existing item.
pub open spec fn export_in_range(m: Module, d: ExportDesc) -> bool {
    match d {
        ExportDesc::Func(i) => i < func_space(m).len(),
        ExportDesc::Table(i) => i < table_space(m).len(),
        ExportDesc::Mem(i) => i < mem_space(m).len(),
        ExportDesc::Global(i) => i < global_space(m).len(),
    }
}

/// The module-level validity rules (everything but function bodies):
/// imports, function types, tables and memories are well-formed; at most
/// one memory; global, element and data initializers are valid constant
/// expressions; segments name existing tables and memories; the start
/// function exists and has type `[] -> []`; export names are distinct and
/// exports name existing items.
pub open spec fn module_shallow_ok(m: Module) -> bool {
    &&& forall|k: int| 0 <= k < m.imports@.len() ==> import_ok(m, #[trigger] m.imports@[k])
    &&& forall|k: int| 0 <= k < m.funcs@.len() ==> #[trigger] m.funcs@[k] < m.types@.len()
    &&& forall|k: int| 0 <= k < m.tables@.len() ==> tabletype_ok(#[trigger] m.tables@[k])
    &&& forall|k: int| 0 <= k < m.mems@.len() ==> memtype_ok(#[trigger] m.mems@[k])
    &&& mem_space(m).len() <= 1
    &&& forall|k: int| 0 <= k < m.globals@.len() ==> module_const_ok(m, #[trigger] m.globals@[k].init, m.globals@[k].ty.val)
    &&& forall|k: int| 0 <= k < m.elems@.len() ==> elem_ok(m, #[trigger] m.elems@[k])
    &&& forall|k: int| 0 <= k < m.datas@.len() ==> data_ok(m, #[trigger] m.datas@[k])
    &&& (m.start matches Some(s) ==> s < func_space(m).len() && m.types@[func_space(m)[s as int] as int].params@.len() == 0
        && m.types@[func_space(m)[s as int] as int].results@.len() == 0)
    &&& forall|i: int, j: int| 0 <= i < j < m.exports@.len() ==> #[trigger] m.exports@[i].name@ != #[trigger] m.exports@[j].name@
    &&& forall|k: int| 0 <= k < m.exports@.len() ==> export_in_range(m, #[trigger] m.exports@[k].desc)
}


/// Whether an instruction is `ref.func f`.
pub open spec fn is_ref_to(i: Instr, f: int) -> bool {
    i matches Instr::RefFunc { func } && func == f
}

/// Whether one of the first `n` instructions of `e` is `ref.func f`.
pub open spec fn expr_refs_upto(e: ConstExpr, n: int, f: int) -> bool {
    exists|j: int| 0 <= j < n && is_ref_to(#[trigger] e.instrs@[j], f)
}

/// Whether a constant expression takes a reference to function `f`.
pub open spec fn expr_refs(e: ConstExpr, f: int) -> bool {
    expr_refs_upto(e, e.instrs@.len() as int, f)
}

/// Whether one of the first `n` items of an element segment takes a
/// reference to `f`.
pub open spec fn items_refs_upto(e: Elem, n: int, f: int) -> bool {
    exists|j: int| 0 <= j < n && expr_refs(#[trigger] e.init@[j], f)
}

/// Whether an element segment takes a reference to `f`, in its items or
/// in its offset.
pub open spec fn elem_refs(e: Elem, f: int) -> bool {
    ||| items_refs_upto(e, e.init@.len() as int, f)
    ||| (e.mode matches ElemMode::Active { offset, .. } && expr_refs(offset, f))
}

/// Whether one of the first `n` global initializers takes a reference to `f`.
pub open spec fn globals_refs_upto(m: Module, n: int, f: int) -> bool {
    exists|k: int| 0 <= k < n && expr_refs(#[trigger] m.globals@[k].init, f)
}

/// Whether one of the first `n` element segments takes a reference to `f`.
pub open spec fn elems_refs_upto(m: Module, n: int, f: int) -> bool {
    exists|k: int| 0 <= k < n && elem_refs(#[trigger] m.elems@[k], f)
}

/// Whether an export names function `f`.
pub open spec fn is_func_export(d: ExportDesc, f: int) -> bool {
    d matches ExportDesc::Func(i) && i == f
}

/// Whether one of the first `n` exports names function `f`.
pub open spec fn exports_refs_upto(m: Module, n: int, f: int) -> bool {
    exists|k: int| 0 <= k < n && is_func_export(#[trigger] m.exports@[k].desc, f)
}

/// Whether function `f` is declared for `ref.func` in function bodies: a
/// global initializer, an element segment or an export names it.
pub open spec fn declared_ref(m: Module, f: int) -> bool {
    ||| globals_refs_upto(m, m.globals@.len() as int, f)
    ||| elems_refs_upto(m, m.elems@.len() as int, f)
    ||| exports_refs_upto(m, m.exports@.len() as int, f)
}

/// The functions declared for `ref.func`, by index.
pub open spec fn declared_refs(m: Module) -> Seq<bool> {
    Seq::new(func_space(m).len(), |f: int| declared_ref(m, f))
}

/// The typing environment of a body of module `m` with the given locals.
pub open spec fn module_env(m: Module, locals: Seq<ValType>) -> TypeEnv {
    TypeEnv {
        m,
        funcs: func_space(m),
        tables: table_space(m),
        mems: mem_space(m),
        globals: global_space(m),
        refs: declared_refs(m),
        locals,
    }
}

/// Whether the body of the `k`-th locally defined function type-checks
/// against its type: its parameters and declared locals are its locals,
/// and its instructions type-check up to the `end` that leaves exactly
/// its results.
pub open spec fn body_valid(m: Module, k: int) -> bool {
    let ty = m.types@[m.funcs@[k] as int];
    let code = m.codes@[k];
    body_checks(module_env(m, ty.params@ + code.locals@), body_start(ty.results@), code.body@, 0)
}

/// Builds the module-wide index spaces, checking imports, function types,
/// tables and memories on the way.
fn build_ctx<'m>(m: &'m Module) -> (r: Result<Ctx<'m>, ValidateError>)
    ensures
        r matches Ok(ctx) ==> {
            &&& ctx.wf()
            &&& ctx.m == m
            &&& ctx.funcs@ == func_space(*m)
            &&& ctx.tables@ == table_space(*m)
            &&& ctx.mems@ == mem_space(*m)
            &&& ctx.globals@ == global_space(*m)
            &&& ctx.num_imported_globals == import_globals(m.imports@).len()
            &&& ctx.refs@ == declared_refs(*m)
        },
        r is Ok <==> {
            &&& forall|k: int| 0 <= k < m.imports@.len() ==> import_ok(*m, #[trigger] m.imports@[k])
            &&& forall|k: int| 0 <= k < m.funcs@.len() ==> #[trigger] m.funcs@[k] < m.types@.len()
            &&& forall|k: int| 0 <= k < m.tables@.len() ==> tabletype_ok(#[trigger] m.tables@[k])
            &&& forall|k: int| 0 <= k < m.mems@.len() ==> memtype_ok(#[trigger] m.mems@[k])
            &&& mem_space(*m).len() <= 1
        },
{
    let mut funcs: Vec<u32> = Vec::new();
    let mut tables: Vec<TableType> = Vec::new();
    let mut mems: Vec<MemType> = Vec::new();
    let mut globals: Vec<GlobalType> = Vec::new();
    let ghost imps = m.imports@;
    let mut i: usize = 0;
    while i < m.imports.len()
        invariant
            imps == m.imports@,
            i <= imps.len(),
            funcs@ == import_funcs(imps.take(i as int)),
            tables@ == import_tables(imps.take(i as int)),
            mems@ == import_mems(imps.take(i as int)),
            globals@ == import_globals(imps.take(i as int)),
            forall|k: int| 0 <= k < i ==> import_ok(*m, #[trigger] imps[k]),
            forall|k: int| 0 <= k < funcs@.len() ==> funcs@[k] < m.types@.len(),
        decreases imps.len() - i,
    {
        proof {
            assert(imps.take(i + 1).drop_last() =~= imps.take(i as int));
            assert(imps.take(i + 1).last() == imps[i as int]);
        }
        match m.imports[i].desc {
            ImportDesc::Func(t) => {
                if t as usize >= m.types.len() {
                    return Err(err("unknown type"));
                }
                funcs.push(t);
            },
            ImportDesc::Table(t) => {
                check_tabletype(&t)?;
                tables.push(t);
            },
            ImportDesc::Mem(t) => {
                check_memtype(&t)?;
                mems.push(t);
            },
            ImportDesc::Global(t) => globals.push(t),
        }
        i = i + 1;
    }
    assert(imps.take(imps.len() as int) =~= imps);
    let num_imported_globals = globals.len();
    let ghost fi = funcs@;
    let mut i: usize = 0;
    while i < m.funcs.len()
        invariant
            i <= m.funcs@.len(),
            funcs@ == fi + m.funcs@.take(i as int),
            forall|k: int| 0 <= k < i ==> #[trigger] m.funcs@[k] < m.types@.len(),
            forall|k: int| 0 <= k < funcs@.len() ==> funcs@[k] < m.types@.len(),
        decreases m.funcs@.len() - i,
    {
        let t = m.funcs[i];
        if t as usize >= m.types.len() {
            return Err(err("unknown type"));
        }
        funcs.push(t);
        i = i + 1;
        assert(funcs@ =~= fi + m.funcs@.take(i as int));
    }
    assert(m.funcs@.take(m.funcs@.len() as int) =~= m.funcs@);
    let ghost ti = tables@;
    let mut i: usize = 0;
    while i < m.tables.len()
        invariant
            i <= m.tables@.len(),
            tables@ == ti + m.tables@.take(i as int),
            forall|k: int| 0 <= k < i ==> tabletype_ok(#[trigger] m.tables@[k]),
        decreases m.tables@.len() - i,
    {
        check_tabletype(&m.tables[i])?;
        tables.push(m.tables[i]);
        i = i + 1;
        assert(tables@ =~= ti + m.tables@.take(i as int));
    }
    assert(m.tables@.take(m.tables@.len() as int) =~= m.tables@);
    let ghost mi = mems@;
    let mut i: usize = 0;
    while i < m.mems.len()
        invariant
            i <= m.mems@.len(),
            mems@ == mi + m.mems@.take(i as int),
            forall|k: int| 0 <= k < i ==> memtype_ok(#[trigger] m.mems@[k]),
        decreases m.mems@.len() - i,
    {
        check_memtype(&m.mems[i])?;
        mems.push(m.mems[i]);
        i = i + 1;
        assert(mems@ =~= mi + m.mems@.take(i as int));
    }
    assert(m.mems@.take(m.mems@.len() as int) =~= m.mems@);
    let ghost gi = globals@;
    let mut i: usize = 0;
    while i < m.globals.len()
        invariant
            i <= m.globals@.len(),
            globals@ == gi + m.globals@.take(i as int).map_values(|g: Global| g.ty),
        decreases m.globals@.len() - i,
    {
        globals.push(m.globals[i].ty);
        i = i + 1;
        assert(globals@ =~= gi + m.globals@.take(i as int).map_values(|g: Global| g.ty));
    }
    assert(m.globals@.take(m.globals@.len() as int) =~= m.globals@);
    if mems.len() > 1 {
        return Err(err("multiple memories"));
    }
    let mut refs: Vec<bool> = Vec::new();
    let mut i: usize = 0;
    while i < funcs.len()
        invariant
            i <= funcs@.len(),
            refs@.len() == i,
            forall|x: int| 0 <= x < i ==> !#[trigger] refs@[x],
        decreases funcs@.len() - i,
    {
        refs.push(false);
        i = i + 1;
    }
    // Collect the declared function references (globals, element
    // segments, exports) before bodies are checked.
    let mut i: usize = 0;
    while i < m.globals.len()
        invariant
            i <= m.globals@.len(),
            refs@.len() == funcs@.len(),
            forall|x: int| 0 <= x < refs@.len() ==> #[trigger] refs@[x] == globals_refs_upto(*m, i as int, x),
        decreases m.globals@.len() - i,
    {
        mark_refs(&m.globals[i].init, &mut refs);
        proof {
            assert forall|x: int| 0 <= x < refs@.len() implies #[trigger] refs@[x] == globals_refs_upto(*m, i + 1, x) by {
                if expr_refs(m.globals@[i as int].init, x) {
                    assert(globals_refs_upto(*m, i + 1, x));
                }
                if globals_refs_upto(*m, i + 1, x) && !expr_refs(m.globals@[i as int].init, x) {
                    let k = choose|k: int| 0 <= k < i + 1 && expr_refs(#[trigger] m.globals@[k].init, x);
                    assert(k < i);
                    assert(globals_refs_upto(*m, i as int, x));
                }
            }
        }
        i = i + 1;
    }
    let ghost n_globals = m.globals@.len() as int;
    let mut i: usize = 0;
    while i < m.elems.len()
        invariant
            i <= m.elems@.len(),
            refs@.len() == funcs@.len(),
            n_globals == m.globals@.len(),
            forall|x: int| 0 <= x < refs@.len() ==> #[trigger] refs@[x] == (globals_refs_upto(*m, n_globals, x)
                || elems_refs_upto(*m, i as int, x)),
        decreases m.elems@.len() - i,
    {
        let e = &m.elems[i];
        let mut k: usize = 0;
        while k < e.init.len()
            invariant
                k <= e.init@.len(),
                i < m.elems@.len(),
                *e == m.elems@[i as int],
                refs@.len() == funcs@.len(),
                n_globals == m.globals@.len(),
                forall|x: int| 0 <= x < refs@.len() ==> #[trigger] refs@[x] == (globals_refs_upto(*m, n_globals, x)
                    || elems_refs_upto(*m, i as int, x) || items_refs_upto(*e, k as int, x)),
            decreases e.init@.len() - k,
        {
            mark_refs(&e.init[k], &mut refs);
            proof {
                assert forall|x: int| 0 <= x < refs@.len() implies #[trigger] refs@[x] == (globals_refs_upto(*m, n_globals, x)
                    || elems_refs_upto(*m, i as int, x) || items_refs_upto(*e, k + 1, x)) by {
                    if expr_refs(e.init@[k as int], x) {
                        assert(items_refs_upto(*e, k + 1, x));
                    }
                    if items_refs_upto(*e, k + 1, x) && !expr_refs(e.init@[k as int], x) {
                        let j = choose|j: int| 0 <= j < k + 1 && expr_refs(#[trigger] e.init@[j], x);
                        assert(j < k);
                        assert(items_refs_upto(*e, k as int, x));
                    }
                }
            }
            k = k + 1;
        }
        if let ElemMode::Active { offset, .. } = &e.mode {
            mark_refs(offset, &mut refs);
        }
        proof {
            assert forall|x: int| 0 <= x < refs@.len() implies #[trigger] refs@[x] == (globals_refs_upto(*m, n_globals, x)
                || elems_refs_upto(*m, i + 1, x)) by {
                if elem_refs(m.elems@[i as int], x) {
                    assert(elems_refs_upto(*m, i + 1, x));
                }
                if elems_refs_upto(*m, i + 1, x) && !elem_refs(m.elems@[i as int], x) {
                    let j = choose|j: int| 0 <= j < i + 1 && elem_refs(#[trigger] m.elems@[j], x);
                    assert(j < i);
                    assert(elems_refs_upto(*m, i as int, x));
                }
            }
        }
        i = i + 1;
    }
    let ghost n_elems = m.elems@.len() as int;
    let mut i: usize = 0;
    while i < m.exports.len()
        invariant
            i <= m.exports@.len(),
            refs@.len() == funcs@.len(),
            n_globals == m.globals@.len(),
            n_elems == m.elems@.len(),
            forall|x: int| 0 <= x < refs@.len() ==> #[trigger] refs@[x] == (globals_refs_upto(*m, n_globals, x)
                || elems_refs_upto(*m, n_elems, x) || exports_refs_upto(*m, i as int, x)),
        decreases m.exports@.len() - i,
    {
        let ghost prev = refs@;
        if let ExportDesc::Func(f) = m.exports[i].desc {
            if (f as usize) < refs.len() {
                refs.set(f as usize, true);
            }
        }
        proof {
            assert forall|x: int| 0 <= x < refs@.len() implies #[trigger] refs@[x] == (globals_refs_upto(*m, n_globals, x)
                || elems_refs_upto(*m, n_elems, x) || exports_refs_upto(*m, i + 1, x)) by {
                assert(prev[x] == (globals_refs_upto(*m, n_globals, x)
                    || elems_refs_upto(*m, n_elems, x) || exports_refs_upto(*m, i as int, x)));
                if is_func_export(m.exports@[i as int].desc, x) {
                    assert(exports_refs_upto(*m, i + 1, x));
                }
                if exports_refs_upto(*m, i + 1, x) && !is_func_export(m.exports@[i as int].desc, x) {
                    let j = choose|j: int| 0 <= j < i + 1 && is_func_export(#[trigger] m.exports@[j].desc, x);
                    assert(j < i);
                    assert(exports_refs_upto(*m, i as int, x));
                }
            }
        }
        i = i + 1;
    }
    proof {
        assert(refs@ =~= declared_refs(*m));
    }
    Ok(Ctx { m, funcs, tables, mems, globals, num_imported_globals, refs })
}

/// Marks the functions an expression takes a reference to.
fn mark_refs(e: &ConstExpr, refs: &mut Vec<bool>)
    ensures
        final(refs)@.len() == old(refs)@.len(),
        forall|x: int| 0 <= x < old(refs)@.len() ==> #[trigger] final(refs)@[x] == (old(refs)@[x] || expr_refs(*e, x)),
{
    let mut i: usize = 0;
    while i < e.instrs.len()
        invariant
            i <= e.instrs@.len(),
            refs@.len() == old(refs)@.len(),
            forall|x: int| 0 <= x < refs@.len() ==> #[trigger] refs@[x] == (old(refs)@[x] || expr_refs_upto(*e, i as int, x)),
        decreases e.instrs@.len() - i,
    {
        let ghost prev = refs@;
        if let Instr::RefFunc { func } = &e.instrs[i] {
            if (*func as usize) < refs.len() {
                refs.set(*func as usize, true);
            }
        }
        proof {
            assert forall|x: int| 0 <= x < refs@.len() implies #[trigger] refs@[x] == (old(refs)@[x] || expr_refs_upto(*e, i + 1, x)) by {
                if is_ref_to(e.instrs@[i as int], x) {
                    assert(expr_refs_upto(*e, i + 1, x));
                }
                if expr_refs_upto(*e, i + 1, x) && !is_ref_to(e.instrs@[i as int], x) {
                    let j = choose|j: int| 0 <= j < i + 1 && is_ref_to(#[trigger] e.instrs@[j], x);
                    assert(j < i);
                    assert(expr_refs_upto(*e, i as int, x));
                }
            }
        }
        i = i + 1;
    }
}


/// Validates a module: the module-level rules and every function body.
pub fn validate(m: &Module) -> (r: Result<(), ValidateError>)
    requires
        m.codes@.len() <= m.funcs@.len(),
    ensures
        r is Ok <==> module_shallow_ok(*m) && forall|k: int|
            0 <= k < m.codes@.len() ==> #[trigger] body_valid(*m, k),
{
    let ctx = build_ctx(m)?;
    // Globals: initializers are constant and match the declared type.
    let mut i: usize = 0;
    while i < m.globals.len()
        invariant
            ctx.wf(),
            ctx.m == m,
            ctx.funcs@ == func_space(*m),
            ctx.globals@ == global_space(*m),
            ctx.num_imported_globals == import_globals(m.imports@).len(),
            i <= m.globals@.len(),
            forall|k: int| 0 <= k < i ==> module_const_ok(*m, #[trigger] m.globals@[k].init, m.globals@[k].ty.val),
        decreases m.globals@.len() - i,
    {
        check_const_expr(&ctx, &m.globals[i].init, m.globals[i].ty.val)?;
        i = i + 1;
    }
    // Element segments.
    let mut i: usize = 0;
    while i < m.elems.len()
        invariant
            ctx.wf(),
            ctx.m == m,
            ctx.funcs@ == func_space(*m),
            ctx.globals@ == global_space(*m),
            ctx.tables@ == table_space(*m),
            ctx.num_imported_globals == import_globals(m.imports@).len(),
            i <= m.elems@.len(),
            forall|k: int| 0 <= k < i ==> elem_ok(*m, #[trigger] m.elems@[k]),
        decreases m.elems@.len() - i,
    {
        let e = &m.elems[i];
        let mut k: usize = 0;
        while k < e.init.len()
            invariant
                ctx.wf(),
                ctx.m == m,
                ctx.funcs@ == func_space(*m),
                ctx.globals@ == global_space(*m),
                ctx.num_imported_globals == import_globals(m.imports@).len(),
                k <= e.init@.len(),
                i < m.elems@.len(),
                *e == m.elems@[i as int],
                forall|j: int| 0 <= j < k ==> module_const_ok(*m, #[trigger] e.init@[j], reftype_val(e.ty)),
            decreases e.init@.len() - k,
        {
            check_const_expr(&ctx, &e.init[k], e.ty.val())?;
            k = k + 1;
        }
        if let ElemMode::Active { table, offset } = &e.mode {
            if *table as usize >= ctx.tables.len() {
                return Err(err("unknown table"));
            }
            if ctx.tables[*table as usize].elem != e.ty {
                return Err(err("type mismatch"));
            }
            check_const_expr(&ctx, offset, ValType::I32)?;
        }
        i = i + 1;
    }
    // Data segments.
    let mut i: usize = 0;
    while i < m.datas.len()
        invariant
            ctx.wf(),
            ctx.m == m,
            ctx.funcs@ == func_space(*m),
            ctx.globals@ == global_space(*m),
            ctx.mems@ == mem_space(*m),
            ctx.num_imported_globals == import_globals(m.imports@).len(),
            i <= m.datas@.len(),
            forall|k: int| 0 <= k < i ==> data_ok(*m, #[trigger] m.datas@[k]),
        decreases m.datas@.len() - i,
    {
        if let DataMode::Active { mem, offset } = &m.datas[i].mode {
            if *mem as usize >= ctx.mems.len() {
                return Err(err("unknown memory"));
            }
            check_const_expr(&ctx, offset, ValType::I32)?;
        }
        i = i + 1;
    }
    // Start function.
    if let Some(st) = m.start {
        if st as usize >= ctx.funcs.len() {
            return Err(err("unknown function"));
        }
        let t = ctx.funcs[st as usize];
        let ft = &m.types[t as usize];
        if ft.params.len() != 0 || ft.results.len() != 0 {
            return Err(err("start function"));
        }
    }
    // Exports: distinct names, existing items.
    let mut i: usize = 0;
    while i < m.exports.len()
        invariant
            ctx.wf(),
            ctx.m == m,
            ctx.funcs@ == func_space(*m),
            ctx.globals@ == global_space(*m),
            ctx.tables@ == table_space(*m),
            ctx.mems@ == mem_space(*m),
            i <= m.exports@.len(),
            forall|a: int, b: int| 0 <= a < b < i ==> #[trigger] m.exports@[a].name@ != #[trigger] m.exports@[b].name@,
            forall|k: int| 0 <= k < i ==> export_in_range(*m, #[trigger] m.exports@[k].desc),
        decreases m.exports@.len() - i,
    {
        let mut j: usize = 0;
        while j < i
            invariant
                i < m.exports@.len(),
                j <= i,
                forall|a: int| 0 <= a < j ==> #[trigger] m.exports@[a].name@ != m.exports@[i as int].name@,
            decreases i - j,
        {
            if m.exports[j].name == m.exports[i].name {
                return Err(err("duplicate export name"));
            }
            j = j + 1;
        }
        let ok = match m.exports[i].desc {
            ExportDesc::Func(x) => (x as usize) < ctx.funcs.len(),
            ExportDesc::Table(x) => (x as usize) < ctx.tables.len(),
            ExportDesc::Mem(x) => (x as usize) < ctx.mems.len(),
            ExportDesc::Global(x) => (x as usize) < ctx.globals.len(),
        };
        if !ok {
            return match m.exports[i].desc {
                ExportDesc::Func(_) => Err(err("unknown function")),
                ExportDesc::Table(_) => Err(err("unknown table")),
                ExportDesc::Mem(_) => Err(err("unknown memory")),
                ExportDesc::Global(_) => Err(err("unknown global")),
            };
        }
        i = i + 1;
    }
    proof {
        assert(module_shallow_ok(*m));
    }
    // Function bodies.
    let num_imported_funcs = ctx.funcs.len() - m.funcs.len();
    let mut i: usize = 0;
    while i < m.codes.len()
        invariant
            ctx.wf(),
            ctx.m == m,
            ctx.funcs@ == func_space(*m),
            ctx.tables@ == table_space(*m),
            ctx.mems@ == mem_space(*m),
            ctx.globals@ == global_space(*m),
            ctx.refs@ == declared_refs(*m),
            module_shallow_ok(*m),
            m.codes@.len() <= m.funcs@.len(),
            num_imported_funcs + m.funcs@.len() == ctx.funcs@.len(),
            i <= m.codes@.len(),
            forall|k: int| 0 <= k < i ==> #[trigger] body_valid(*m, k),
        decreases m.codes@.len() - i,
    {
        assert(ctx.funcs@[num_imported_funcs + i] == m.funcs@[i as int]);
        let t = m.funcs[i];
        let ty = &m.types[t as usize];
        proof {
            let locals = ty.params@ + m.codes@[i as int].locals@;
            assert(ctx_env(&ctx, locals) == module_env(*m, locals));
        }
        if let Err(e) = check_body(&ctx, ty, &m.codes[i]) {
            assert(!body_valid(*m, i as int));
            assert(num_imported_funcs + i < ctx.funcs.len());
            let index: usize = num_imported_funcs + i;
            let prefix = with_dec("func ", index as u64);
            return Err(ValidateError { msg: join3(prefix.as_str(), ": ", e.msg.as_str()) });
        }
        i = i + 1;
    }
    Ok(())
}

/// The typing environment of a body with the given locals.
spec fn ctx_env(ctx: &Ctx, locals: Seq<ValType>) -> TypeEnv {
    TypeEnv {
        m: *ctx.m,
        funcs: ctx.funcs@,
        tables: ctx.tables@,
        mems: ctx.mems@,
        globals: ctx.globals@,
        refs: ctx.refs@,
        locals,
    }
}

/// Type-checks a function body against its type.
fn check_body(ctx: &Ctx, ty: &FuncType, code: &Code) -> (r: Result<(), ValidateError>)
    requires
        ctx.wf(),
    ensures
        r is Ok <==> body_checks(
            ctx_env(ctx, ty.params@ + code.locals@),
            body_start(ty.results@),
            code.body@,
            0,
        ),
{
    let mut locals = copy_vals(ty.params.as_slice());
    let mut k: usize = 0;
    while k < code.locals.len()
        invariant
            k <= code.locals@.len(),
            locals@ == ty.params@ + code.locals@.take(k as int),
        decreases code.locals@.len() - k,
    {
        locals.push(code.locals[k]);
        k = k + 1;
        assert(locals@ =~= ty.params@ + code.locals@.take(k as int));
    }
    assert(code.locals@.take(code.locals@.len() as int) =~= code.locals@);
    let ghost env = ctx_env(ctx, ty.params@ + code.locals@);
    let ghost start = body_start(ty.results@);
    let mut c = Checker { ctx, locals, stack: Vec::new(), ctrls: Vec::new() };
    c.push_ctrl(Kind::Block, Vec::new(), copy_vals(ty.results.as_slice()));
    proof {
        assert(c.state().stack =~= start.stack);
        assert(c.state().frames =~= start.frames);
    }
    let mut i: usize = 0;
    while i < code.body.len()
        invariant
            c.inv(),
            c.ctrls@.len() > 0,
            env == ctx_env(ctx, ty.params@ + code.locals@),
            start == body_start(ty.results@),
            c.env() == env,
            i <= code.body@.len(),
            body_checks(env, start, code.body@, 0) == body_checks(env, c.state(), code.body@, i as int),
        decreases code.body@.len() - i,
    {
        let ghost st0 = c.state();
        let res = step(&mut c, &code.body[i]);
        if res.is_err() {
            assert(!body_checks(env, st0, code.body@, i as int));
            return res;
        }
        if c.ctrls.len() == 0 {
            assert(c.state().frames.len() == 0);
            return Ok(());
        }
        i = i + 1;
    }
    // The body was not terminated (the decoder prevents this).
    Err(err("type mismatch"))
}

// ---- body type checking ----

/// A control frame of the type checker.
struct Frame {
    kind: Kind,
    ins: Vec<ValType>,
    outs: Vec<ValType>,
    /// Operand-stack height at entry.
    height: usize,
    /// Whether the rest of the block is unreachable (stack-polymorphic).
    unreachable: bool,
}

impl Frame {
    spec fn model(&self) -> TypeFrame {
        TypeFrame {
            kind: self.kind,
            ins: self.ins@,
            outs: self.outs@,
            height: self.height as nat,
            unreachable: self.unreachable,
        }
    }
}

struct Checker<'c, 'm> {
    ctx: &'c Ctx<'m>,
    locals: Vec<ValType>,
    /// Operand types; `None` is the bottom type of unreachable code.
    stack: Vec<Option<ValType>>,
    ctrls: Vec<Frame>,
}

impl<'c, 'm> Checker<'c, 'm> {
    /// Frame heights never exceed the operand stack and grow inwards.
    spec fn inv(&self) -> bool {
        &&& self.ctx.wf()
        &&& forall|i: int| 0 <= i < self.ctrls@.len() ==> #[trigger] self.ctrls@[i].height
            <= self.stack@.len()
        &&& forall|i: int, j: int|
            0 <= i <= j < self.ctrls@.len() ==> self.ctrls@[i].height <= self.ctrls@[j].height
    }

    /// The state of the typing rules this checker is in.
    spec fn state(&self) -> TypeState {
        TypeState { stack: self.stack@, frames: self.ctrls@.map_values(|f: Frame| f.model()) }
    }

    spec fn env(&self) -> TypeEnv {
        ctx_env(self.ctx, self.locals@)
    }

    /// The innermost frame.
    spec fn top_model(&self) -> TypeFrame {
        self.ctrls@.last().model()
    }

    fn push(&mut self, t: ValType)
        requires
            old(self).inv(),
        ensures
            final(self).inv(),
            final(self).stack@ == old(self).stack@.push(Some(t)),
            final(self).ctrls == old(self).ctrls,
            final(self).ctx == old(self).ctx,
            final(self).locals == old(self).locals,
    {
        self.stack.push(Some(t));
    }

    fn push_bot(&mut self)
        requires
            old(self).inv(),
        ensures
            final(self).inv(),
            final(self).stack@ == old(self).stack@.push(None),
            final(self).ctrls == old(self).ctrls,
            final(self).ctx == old(self).ctx,
            final(self).locals == old(self).locals,
    {
        self.stack.push(None);
    }

    /// Pops any operand; at the frame's base, yields bottom in unreachable
    /// code and fails otherwise.
    fn pop_any(&mut self) -> (r: Result<Option<ValType>, ValidateError>)
        requires
            old(self).inv(),
            old(self).ctrls@.len() > 0,
        ensures
            final(self).inv(),
            final(self).ctrls == old(self).ctrls,
            final(self).ctx == old(self).ctx,
            final(self).locals == old(self).locals,
            r is Ok <==> pop_any(old(self).stack@, old(self).top_model()) is Some,
            r matches Ok(t) ==> pop_any(old(self).stack@, old(self).top_model()) == Some(
                (final(self).stack@, t),
            ),
            final(self).stack@ == old(self).stack@.take(final(self).stack@.len() as int),
            final(self).stack@.len() <= old(self).stack@.len(),
            r matches Err(e) ==> e.msg@ == "type mismatch"@,
    {
        let n = self.ctrls.len();
        if self.stack.len() == self.ctrls[n - 1].height {
            if self.ctrls[n - 1].unreachable {
                return Ok(None);
            }
            return Err(err("type mismatch"));
        }
        proof {
            assert(self.ctrls@[n - 1].height <= self.stack@.len());
        }
        let v = self.stack.pop().unwrap();
        assert(self.stack@ =~= old(self).stack@.take(self.stack@.len() as int));
        Ok(v)
    }

    /// Pops an operand of type `want` (or bottom).
    fn pop(&mut self, want: ValType) -> (r: Result<(), ValidateError>)
        requires
            old(self).inv(),
            old(self).ctrls@.len() > 0,
        ensures
            final(self).inv(),
            final(self).ctrls == old(self).ctrls,
            final(self).ctx == old(self).ctx,
            final(self).locals == old(self).locals,
            r is Ok <==> pop_one(old(self).stack@, old(self).top_model(), want) is Some,
            r is Ok ==> pop_one(old(self).stack@, old(self).top_model(), want) == Some(
                final(self).stack@,
            ),
            final(self).stack@ == old(self).stack@.take(final(self).stack@.len() as int),
            final(self).stack@.len() <= old(self).stack@.len(),
            r matches Err(e) ==> e.msg@ == "type mismatch"@,
    {
        match self.pop_any()? {
            None => Ok(()),
            Some(t) => if t == want {
                Ok(())
            } else {
                Err(err("type mismatch"))
            },
        }
    }

    /// Pops operands of the given types, the last type first.
    fn pop_vals(&mut self, ts: &[ValType]) -> (r: Result<(), ValidateError>)
        requires
            old(self).inv(),
            old(self).ctrls@.len() > 0,
        ensures
            final(self).inv(),
            final(self).ctrls == old(self).ctrls,
            final(self).ctx == old(self).ctx,
            final(self).locals == old(self).locals,
            r is Ok <==> pop_all(old(self).stack@, old(self).top_model(), ts@) is Some,
            r is Ok ==> pop_all(old(self).stack@, old(self).top_model(), ts@) == Some(
                final(self).stack@,
            ),
    {
        let mut i = ts.len();
        let ghost s0 = self.stack@;
        let ghost f0 = old(self).top_model();
        assert(ts@.take(ts@.len() as int) =~= ts@);
        while i > 0
            invariant
                self.inv(),
                self.ctrls@.len() > 0,
                self.ctrls == old(self).ctrls,
                self.ctx == old(self).ctx,
                self.locals == old(self).locals,
                f0 == self.top_model(),
                s0 == old(self).stack@,
                i <= ts@.len(),
                pop_all(s0, f0, ts@) == pop_all(self.stack@, f0, ts@.take(i as int)),
            decreases i,
        {
            let ghost prev = self.stack@;
            proof {
                assert(ts@.take(i as int).last() == ts@[i - 1]);
                assert(ts@.take(i as int).drop_last() =~= ts@.take(i - 1));
            }
            i = i - 1;
            self.pop(ts[i])?;
        }
        assert(ts@.take(0) =~= Seq::<ValType>::empty());
        Ok(())
    }

    /// Pushes operands of the given types in order.
    fn push_vals(&mut self, ts: &[ValType])
        requires
            old(self).inv(),
        ensures
            final(self).inv(),
            final(self).stack@ == push_all(old(self).stack@, ts@),
            final(self).ctrls == old(self).ctrls,
            final(self).ctx == old(self).ctx,
            final(self).locals == old(self).locals,
    {
        let mut i: usize = 0;
        while i < ts.len()
            invariant
                self.inv(),
                i <= ts@.len(),
                self.stack@ == push_all(old(self).stack@, ts@.take(i as int)),
                self.ctrls == old(self).ctrls,
                self.ctx == old(self).ctx,
                self.locals == old(self).locals,
            decreases ts@.len() - i,
        {
            self.push(ts[i]);
            i = i + 1;
            assert(push_all(old(self).stack@, ts@.take(i as int)) =~= push_all(
                old(self).stack@,
                ts@.take((i - 1) as int),
            ).push(Some(ts@[i - 1])));
        }
        assert(ts@.take(ts@.len() as int) =~= ts@);
    }

    /// Enters a block: its parameters are pushed over the current height.
    fn push_ctrl(&mut self, kind: Kind, ins: Vec<ValType>, outs: Vec<ValType>)
        requires
            old(self).inv(),
        ensures
            final(self).inv(),
            final(self).ctrls@.len() == old(self).ctrls@.len() + 1,
            final(self).state() == push_frame(old(self).state(), kind, ins@, outs@),
            final(self).ctx == old(self).ctx,
            final(self).locals == old(self).locals,
    {
        let height = self.stack.len();
        self.push_vals(ins.as_slice());
        self.ctrls.push(Frame { kind, ins, outs, height, unreachable: false });
        proof {
            assert(self.state().frames =~= push_frame(old(self).state(), kind, ins@, outs@).frames);
        }
    }

    /// Leaves a block: its results must be exactly what is left above its height.
    fn pop_ctrl(&mut self) -> (r: Result<Frame, ValidateError>)
        requires
            old(self).inv(),
        ensures
            final(self).inv(),
            final(self).ctx == old(self).ctx,
            final(self).locals == old(self).locals,
            r is Ok <==> pop_frame(old(self).state()) is Some,
            r matches Ok(f) ==> pop_frame(old(self).state()) == Some((final(self).state(), f.model())),
    {
        if self.ctrls.len() == 0 {
            return Err(err("type mismatch"));
        }
        let n = self.ctrls.len();
        let outs = copy_vals(self.ctrls[n - 1].outs.as_slice());
        let height = self.ctrls[n - 1].height;
        self.pop_vals(outs.as_slice())?;
        if self.stack.len() != height {
            return Err(err("type mismatch"));
        }
        let f = self.ctrls.pop().unwrap();
        proof {
            assert(self.state().frames =~= old(self).state().frames.drop_last());
        }
        Ok(f)
    }

    /// The rest of the block is unreachable: drop to its height and make
    /// the stack polymorphic.
    fn unreachable(&mut self)
        requires
            old(self).inv(),
            old(self).ctrls@.len() > 0,
        ensures
            final(self).inv(),
            final(self).ctrls@.len() == old(self).ctrls@.len(),
            final(self).state() == set_unreachable(old(self).state()),
            final(self).ctx == old(self).ctx,
            final(self).locals == old(self).locals,
    {
        let n = self.ctrls.len();
        let h = self.ctrls[n - 1].height;
        self.stack.truncate(h);
        let mut f = self.ctrls.pop().unwrap();
        f.unreachable = true;
        self.ctrls.push(f);
        proof {
            assert forall|i: int| 0 <= i < self.ctrls@.len() implies #[trigger] self.ctrls@[i].height
                <= self.stack@.len() by {
                assert(old(self).ctrls@[i].height <= old(self).ctrls@[n - 1].height);
            }
            assert(self.state().frames =~= set_unreachable(old(self).state()).frames);
        }
    }

    /// The operand types a branch to `depth` carries.
    fn label_types(&self, depth: u32) -> (r: Result<Vec<ValType>, ValidateError>)
        ensures
            r is Ok <==> label_types(self.state(), depth) is Some,
            r matches Ok(ts) ==> label_types(self.state(), depth) == Some(ts@),
            r matches Err(e) ==> e.msg@ == "unknown label"@,
    {
        let n = self.ctrls.len();
        if depth as usize >= n {
            return Err(err("unknown label"));
        }
        let f = &self.ctrls[n - 1 - depth as usize];
        if f.kind == Kind::Loop {
            Ok(copy_vals(f.ins.as_slice()))
        } else {
            Ok(copy_vals(f.outs.as_slice()))
        }
    }

    /// Parameter and result types of a block type.
    fn block_type(&self, bt: &BlockType) -> (r: Result<(Vec<ValType>, Vec<ValType>), ValidateError>)
        ensures
            r is Ok <==> block_sig(self.env(), *bt) is Some,
            r matches Ok((ins, outs)) ==> block_sig(self.env(), *bt) == Some((ins@, outs@)),
            r matches Err(e) ==> e.msg@ == "unknown type"@,
    {
        match bt {
            BlockType::Empty => Ok((Vec::new(), Vec::new())),
            BlockType::Val(t) => Ok((Vec::new(), one(*t))),
            BlockType::Type(i) => {
                if *i as usize >= self.ctx.m.types.len() {
                    return Err(err("unknown type"));
                }
                let ft = &self.ctx.m.types[*i as usize];
                Ok((copy_vals(ft.params.as_slice()), copy_vals(ft.results.as_slice())))
            },
        }
    }

    fn local(&self, idx: u32) -> (r: Result<ValType, ValidateError>)
        ensures
            (idx as int) < self.locals@.len() ==> r == Ok::<ValType, ValidateError>(
                self.locals@[idx as int],
            ),
            (idx as int) >= self.locals@.len() ==> (r matches Err(e) && e.msg@ == "unknown local"@),
    {
        if (idx as usize) < self.locals.len() {
            Ok(self.locals[idx as usize])
        } else {
            Err(err("unknown local"))
        }
    }

    fn global(&self, idx: u32) -> (r: Result<GlobalType, ValidateError>)
        ensures
            (idx as int) < self.ctx.globals@.len() ==> r == Ok::<GlobalType, ValidateError>(
                self.ctx.globals@[idx as int],
            ),
            (idx as int) >= self.ctx.globals@.len() ==> (r matches Err(e) && e.msg@
                == "unknown global"@),
    {
        if (idx as usize) < self.ctx.globals.len() {
            Ok(self.ctx.globals[idx as usize])
        } else {
            Err(err("unknown global"))
        }
    }

    fn table(&self, idx: u32) -> (r: Result<TableType, ValidateError>)
        ensures
            (idx as int) < self.ctx.tables@.len() ==> r == Ok::<TableType, ValidateError>(
                self.ctx.tables@[idx as int],
            ),
            (idx as int) >= self.ctx.tables@.len() ==> (r matches Err(e) && e.msg@
                == "unknown table"@),
    {
        if (idx as usize) < self.ctx.tables.len() {
            Ok(self.ctx.tables[idx as usize])
        } else {
            Err(err("unknown table"))
        }
    }

    fn need_mem(&self) -> (r: Result<(), ValidateError>)
        ensures
            r is Ok <==> self.ctx.mems@.len() > 0,
            r matches Err(e) ==> e.msg@ == "unknown memory 0"@,
    {
        if self.ctx.mems.len() == 0 {
            return Err(err("unknown memory 0"));
        }
        Ok(())
    }

    /// The alignment exponent must not exceed that of the natural
    /// alignment `2^natural_log`.
    fn check_align(&self, align: u32, natural_log: u32) -> (r: Result<(), ValidateError>)
        ensures
            r is Ok <==> align <= natural_log,
            r matches Err(e) ==> e.msg@ == "alignment must not be larger than natural"@,
    {
        if align > natural_log {
            return Err(err("alignment must not be larger than natural"));
        }
        Ok(())
    }
}

/// The operand and result types of a numeric operator: the number of
/// operands (all of one type), their type, and the result type.
pub(crate) fn num_sig(op: NumOp) -> (r: (u8, ValType, ValType))
    ensures
        r == num_type(op),
        1 <= r.0 <= 2,
{
    match op {
        NumOp::I32Eqz => (1, ValType::I32, ValType::I32),
        NumOp::I64Eqz => (1, ValType::I64, ValType::I32),
        NumOp::I32Eq | NumOp::I32Ne | NumOp::I32LtS | NumOp::I32LtU | NumOp::I32GtS | NumOp::I32GtU | NumOp::I32LeS | NumOp::I32LeU | NumOp::I32GeS | NumOp::I32GeU => (2, ValType::I32, ValType::I32),
        NumOp::I64Eq | NumOp::I64Ne | NumOp::I64LtS | NumOp::I64LtU | NumOp::I64GtS | NumOp::I64GtU | NumOp::I64LeS | NumOp::I64LeU | NumOp::I64GeS | NumOp::I64GeU => (2, ValType::I64, ValType::I32),
        NumOp::F32Eq | NumOp::F32Ne | NumOp::F32Lt | NumOp::F32Gt | NumOp::F32Le | NumOp::F32Ge => (2, ValType::F32, ValType::I32),
        NumOp::F64Eq | NumOp::F64Ne | NumOp::F64Lt | NumOp::F64Gt | NumOp::F64Le | NumOp::F64Ge => (2, ValType::F64, ValType::I32),
        NumOp::I32Clz | NumOp::I32Ctz | NumOp::I32Popcnt | NumOp::I32Extend8S | NumOp::I32Extend16S => (1, ValType::I32, ValType::I32),
        NumOp::I32Add | NumOp::I32Sub | NumOp::I32Mul | NumOp::I32DivS | NumOp::I32DivU | NumOp::I32RemS | NumOp::I32RemU | NumOp::I32And | NumOp::I32Or | NumOp::I32Xor | NumOp::I32Shl | NumOp::I32ShrS | NumOp::I32ShrU | NumOp::I32Rotl | NumOp::I32Rotr => (2, ValType::I32, ValType::I32),
        NumOp::I64Clz | NumOp::I64Ctz | NumOp::I64Popcnt | NumOp::I64Extend8S | NumOp::I64Extend16S | NumOp::I64Extend32S => (1, ValType::I64, ValType::I64),
        NumOp::I64Add | NumOp::I64Sub | NumOp::I64Mul | NumOp::I64DivS | NumOp::I64DivU | NumOp::I64RemS | NumOp::I64RemU | NumOp::I64And | NumOp::I64Or | NumOp::I64Xor | NumOp::I64Shl | NumOp::I64ShrS | NumOp::I64ShrU | NumOp::I64Rotl | NumOp::I64Rotr => (2, ValType::I64, ValType::I64),
        NumOp::F32Abs | NumOp::F32Neg | NumOp::F32Ceil | NumOp::F32Floor | NumOp::F32Trunc | NumOp::F32Nearest | NumOp::F32Sqrt => (1, ValType::F32, ValType::F32),
        NumOp::F32Add | NumOp::F32Sub | NumOp::F32Mul | NumOp::F32Div | NumOp::F32Min | NumOp::F32Max | NumOp::F32Copysign => (2, ValType::F32, ValType::F32),
        NumOp::F64Abs | NumOp::F64Neg | NumOp::F64Ceil | NumOp::F64Floor | NumOp::F64Trunc | NumOp::F64Nearest | NumOp::F64Sqrt => (1, ValType::F64, ValType::F64),
        NumOp::F64Add | NumOp::F64Sub | NumOp::F64Mul | NumOp::F64Div | NumOp::F64Min | NumOp::F64Max | NumOp::F64Copysign => (2, ValType::F64, ValType::F64),
        NumOp::I32WrapI64 => (1, ValType::I64, ValType::I32),
        NumOp::I32TruncF32S | NumOp::I32TruncF32U | NumOp::I32TruncSatF32S | NumOp::I32TruncSatF32U | NumOp::I32ReinterpretF32 => (1, ValType::F32, ValType::I32),
        NumOp::I32TruncF64S | NumOp::I32TruncF64U | NumOp::I32TruncSatF64S | NumOp::I32TruncSatF64U => (1, ValType::F64, ValType::I32),
        NumOp::I64ExtendI32S | NumOp::I64ExtendI32U => (1, ValType::I32, ValType::I64),
        NumOp::I64TruncF32S | NumOp::I64TruncF32U | NumOp::I64TruncSatF32S | NumOp::I64TruncSatF32U => (1, ValType::F32, ValType::I64),
        NumOp::I64TruncF64S | NumOp::I64TruncF64U | NumOp::I64TruncSatF64S | NumOp::I64TruncSatF64U | NumOp::I64ReinterpretF64 => (1, ValType::F64, ValType::I64),
        NumOp::F32ConvertI32S | NumOp::F32ConvertI32U | NumOp::F32ReinterpretI32 => (1, ValType::I32, ValType::F32),
        NumOp::F32ConvertI64S | NumOp::F32ConvertI64U => (1, ValType::I64, ValType::F32),
        NumOp::F32DemoteF64 => (1, ValType::F64, ValType::F32),
        NumOp::F64ConvertI32S | NumOp::F64ConvertI32U => (1, ValType::I32, ValType::F64),
        NumOp::F64ConvertI64S | NumOp::F64ConvertI64U | NumOp::F64ReinterpretI64 => (1, ValType::I64, ValType::F64),
        NumOp::F64PromoteF32 => (1, ValType::F32, ValType::F64),
    }
}

/// The operand and result types of a SIMD operator without immediates:
/// the number of operands, up to three operand types, and the result type.
pub(crate) fn simd_sig(op: SimdOp) -> (r: (u8, ValType, ValType, ValType, ValType))
    ensures
        r == simd_type(op),
        1 <= r.0 <= 3,
{
    match op {
        SimdOp::I8x16Splat | SimdOp::I16x8Splat | SimdOp::I32x4Splat => (1, ValType::I32, ValType::V128, ValType::V128, ValType::V128),
        SimdOp::I64x2Splat => (1, ValType::I64, ValType::V128, ValType::V128, ValType::V128),
        SimdOp::F32x4Splat => (1, ValType::F32, ValType::V128, ValType::V128, ValType::V128),
        SimdOp::F64x2Splat => (1, ValType::F64, ValType::V128, ValType::V128, ValType::V128),
        SimdOp::V128AnyTrue | SimdOp::I8x16AllTrue | SimdOp::I8x16Bitmask | SimdOp::I16x8AllTrue | SimdOp::I16x8Bitmask | SimdOp::I32x4AllTrue | SimdOp::I32x4Bitmask | SimdOp::I64x2AllTrue | SimdOp::I64x2Bitmask => (1, ValType::V128, ValType::V128, ValType::V128, ValType::I32),
        SimdOp::V128Bitselect => (3, ValType::V128, ValType::V128, ValType::V128, ValType::V128),
        SimdOp::I8x16Shl | SimdOp::I8x16ShrS | SimdOp::I8x16ShrU | SimdOp::I16x8Shl | SimdOp::I16x8ShrS | SimdOp::I16x8ShrU | SimdOp::I32x4Shl | SimdOp::I32x4ShrS | SimdOp::I32x4ShrU | SimdOp::I64x2Shl | SimdOp::I64x2ShrS | SimdOp::I64x2ShrU => (2, ValType::V128, ValType::I32, ValType::V128, ValType::V128),
        SimdOp::V128Not | SimdOp::F32x4DemoteF64x2Zero | SimdOp::F64x2PromoteLowF32x4 | SimdOp::I8x16Abs | SimdOp::I8x16Neg | SimdOp::I8x16Popcnt | SimdOp::F32x4Ceil | SimdOp::F32x4Floor | SimdOp::F32x4Trunc | SimdOp::F32x4Nearest | SimdOp::F64x2Ceil | SimdOp::F64x2Floor | SimdOp::F64x2Trunc | SimdOp::F64x2Nearest | SimdOp::I16x8ExtaddPairwiseI8x16S | SimdOp::I16x8ExtaddPairwiseI8x16U | SimdOp::I32x4ExtaddPairwiseI16x8S | SimdOp::I32x4ExtaddPairwiseI16x8U | SimdOp::I16x8Abs | SimdOp::I16x8Neg | SimdOp::I16x8ExtendLowI8x16S | SimdOp::I16x8ExtendHighI8x16S | SimdOp::I16x8ExtendLowI8x16U | SimdOp::I16x8ExtendHighI8x16U | SimdOp::I32x4Abs | SimdOp::I32x4Neg | SimdOp::I32x4ExtendLowI16x8S | SimdOp::I32x4ExtendHighI16x8S | SimdOp::I32x4ExtendLowI16x8U | SimdOp::I32x4ExtendHighI16x8U | SimdOp::I64x2Abs | SimdOp::I64x2Neg | SimdOp::I64x2ExtendLowI32x4S | SimdOp::I64x2ExtendHighI32x4S | SimdOp::I64x2ExtendLowI32x4U | SimdOp::I64x2ExtendHighI32x4U | SimdOp::F32x4Abs | SimdOp::F32x4Neg | SimdOp::F32x4Sqrt | SimdOp::F64x2Abs | SimdOp::F64x2Neg | SimdOp::F64x2Sqrt | SimdOp::I32x4TruncSatF32x4S | SimdOp::I32x4TruncSatF32x4U | SimdOp::F32x4ConvertI32x4S | SimdOp::F32x4ConvertI32x4U | SimdOp::I32x4TruncSatF64x2SZero | SimdOp::I32x4TruncSatF64x2UZero | SimdOp::F64x2ConvertLowI32x4S | SimdOp::F64x2ConvertLowI32x4U => (1, ValType::V128, ValType::V128, ValType::V128, ValType::V128),
        _ => (2, ValType::V128, ValType::V128, ValType::V128, ValType::V128),
    }
}

/// A vector of one value type.
fn one(a: ValType) -> (v: Vec<ValType>)
    ensures
        v@ == seq![a],
{
    let mut v = Vec::new();
    v.push(a);
    assert(v@ =~= seq![a]);
    v
}

/// A vector of two value types.
fn two(a: ValType, b: ValType) -> (v: Vec<ValType>)
    ensures
        v@ == seq![a, b],
{
    let mut v = Vec::new();
    v.push(a);
    v.push(b);
    assert(v@ =~= seq![a, b]);
    v
}

/// A vector of three value types.
fn three(a: ValType, b: ValType, c: ValType) -> (v: Vec<ValType>)
    ensures
        v@ == seq![a, b, c],
{
    let mut v = Vec::new();
    v.push(a);
    v.push(b);
    v.push(c);
    assert(v@ =~= seq![a, b, c]);
    v
}

/// Whether an executable signature agrees with the rules' one: `None` for
/// instructions typed otherwise, an error for invalid immediates.
spec fn sig_agrees(s: Sig, r: Result<Option<(Vec<ValType>, Vec<ValType>)>, ValidateError>) -> bool {
    match s {
        Sig::Of(ins, outs) => r matches Ok(Some((a, b))) && a@ == ins && b@ == outs,
        Sig::Invalid => r is Err,
        Sig::Other => r matches Ok(None),
    }
}

/// The signature of a call, variable or table instruction.
#[verifier::rlimit(100)]
#[verifier::spinoff_prover]
fn access_sig_exec(c: &Checker, instr: &Instr) -> (r: Result<Option<(Vec<ValType>, Vec<ValType>)>, ValidateError>)
    requires
        c.inv(),
    ensures
        sig_agrees(access_sig(c.env(), *instr), r),
        *instr matches Instr::SelectT { tys } ==> (tys@.len() != 1 ==> (r matches Err(e) && e.msg@ == "invalid result arity"@)),
{
    let i32 = ValType::I32;
    match instr {
        Instr::Call { func } => {
            if *func as usize >= c.ctx.funcs.len() {
                return Err(err("unknown function"));
            }
            let t = c.ctx.funcs[*func as usize];
            let ft = &c.ctx.m.types[t as usize];
            Ok(Some((copy_vals(ft.params.as_slice()), copy_vals(ft.results.as_slice()))))
        },
        Instr::CallIndirect { table, ty } => {
            let tt = c.table(*table)?;
            if tt.elem != RefType::FuncRef {
                return Err(err("type mismatch"));
            }
            if *ty as usize >= c.ctx.m.types.len() {
                return Err(err("unknown type"));
            }
            let ft = &c.ctx.m.types[*ty as usize];
            let mut ins = copy_vals(ft.params.as_slice());
            ins.push(i32);
            Ok(Some((ins, copy_vals(ft.results.as_slice()))))
        },
        Instr::Select { ty: Some(t) } => Ok(Some((three(*t, *t, i32), one(*t)))),
        Instr::SelectT { tys } => {
            if tys.len() != 1 {
                return Err(err("invalid result arity"));
            }
            let t = tys[0];
            Ok(Some((three(t, t, i32), one(t))))
        },
        Instr::LocalGet { idx } => {
            let t = c.local(*idx)?;
            Ok(Some((Vec::new(), one(t))))
        },
        Instr::LocalSet { idx } => {
            let t = c.local(*idx)?;
            Ok(Some((one(t), Vec::new())))
        },
        Instr::LocalTee { idx } => {
            let t = c.local(*idx)?;
            Ok(Some((one(t), one(t))))
        },
        Instr::GlobalGet { idx } => {
            let g = c.global(*idx)?;
            Ok(Some((Vec::new(), one(g.val))))
        },
        Instr::GlobalSet { idx } => {
            let g = c.global(*idx)?;
            if !g.mutable {
                return Err(err("global is immutable"));
            }
            Ok(Some((one(g.val), Vec::new())))
        },
        Instr::TableGet { table } => {
            let tt = c.table(*table)?;
            Ok(Some((one(i32), one(tt.elem.val()))))
        },
        Instr::TableSet { table } => {
            let tt = c.table(*table)?;
            Ok(Some((two(i32, tt.elem.val()), Vec::new())))
        },
        Instr::TableInit { table, elem } => {
            let tt = c.table(*table)?;
            if *elem as usize >= c.ctx.m.elems.len() {
                return Err(err("unknown elem segment"));
            }
            if c.ctx.m.elems[*elem as usize].ty != tt.elem {
                return Err(err("type mismatch"));
            }
            Ok(Some((three(i32, i32, i32), Vec::new())))
        },
        Instr::ElemDrop { elem } => {
            if *elem as usize >= c.ctx.m.elems.len() {
                return Err(err("unknown elem segment"));
            }
            Ok(Some((Vec::new(), Vec::new())))
        },
        Instr::TableCopy { dst, src } => {
            let d = c.table(*dst)?;
            let s = c.table(*src)?;
            if d.elem != s.elem {
                return Err(err("type mismatch"));
            }
            Ok(Some((three(i32, i32, i32), Vec::new())))
        },
        Instr::TableGrow { table } => {
            let tt = c.table(*table)?;
            Ok(Some((two(tt.elem.val(), i32), one(i32))))
        },
        Instr::TableSize { table } => {
            c.table(*table)?;
            Ok(Some((Vec::new(), one(i32))))
        },
        Instr::TableFill { table } => {
            let tt = c.table(*table)?;
            Ok(Some((three(i32, tt.elem.val(), i32), Vec::new())))
        },
        _ => Ok(None),
    }
}

/// The signature of a scalar memory instruction.
fn memory_sig_exec(c: &Checker, instr: &Instr) -> (r: Result<Option<(Vec<ValType>, Vec<ValType>)>, ValidateError>)
    requires
        c.inv(),
    ensures
        sig_agrees(memory_sig(c.env(), *instr), r),
{
    let i32 = ValType::I32;
    match instr {
        Instr::Load { op, align, .. } => {
            c.need_mem()?;
            let (natural_log, t) = load_sig(*op);
            c.check_align(*align, natural_log)?;
            Ok(Some((one(i32), one(t))))
        },
        Instr::Store { op, align, .. } => {
            c.need_mem()?;
            let (natural_log, t) = store_sig(*op);
            c.check_align(*align, natural_log)?;
            Ok(Some((two(i32, t), Vec::new())))
        },
        Instr::MemorySize => {
            c.need_mem()?;
            Ok(Some((Vec::new(), one(i32))))
        },
        Instr::MemoryGrow => {
            c.need_mem()?;
            Ok(Some((one(i32), one(i32))))
        },
        Instr::MemoryInit { data } => {
            c.need_mem()?;
            if *data as usize >= c.ctx.m.datas.len() {
                return Err(err("unknown data segment"));
            }
            Ok(Some((three(i32, i32, i32), Vec::new())))
        },
        Instr::DataDrop { data } => {
            if *data as usize >= c.ctx.m.datas.len() {
                return Err(err("unknown data segment"));
            }
            Ok(Some((Vec::new(), Vec::new())))
        },
        Instr::MemoryCopy | Instr::MemoryFill => {
            c.need_mem()?;
            Ok(Some((three(i32, i32, i32), Vec::new())))
        },
        _ => Ok(None),
    }
}

/// The signature of a constant, reference, numeric or vector instruction.
fn numeric_sig_exec(c: &Checker, instr: &Instr) -> (r: Result<Option<(Vec<ValType>, Vec<ValType>)>, ValidateError>)
    requires
        c.inv(),
    ensures
        sig_agrees(numeric_sig(c.env(), *instr), r),
{
    let v128 = ValType::V128;
    match instr {
        Instr::I32Const(_) => Ok(Some((Vec::new(), one(ValType::I32)))),
        Instr::I64Const(_) => Ok(Some((Vec::new(), one(ValType::I64)))),
        Instr::F32Const(_) => Ok(Some((Vec::new(), one(ValType::F32)))),
        Instr::F64Const(_) => Ok(Some((Vec::new(), one(ValType::F64)))),
        Instr::V128Const(_) => Ok(Some((Vec::new(), one(v128)))),
        Instr::RefNull(t) => Ok(Some((Vec::new(), one(t.val())))),
        Instr::RefFunc { func } => {
            if *func as usize >= c.ctx.funcs.len() {
                return Err(err("unknown function"));
            }
            if !c.ctx.refs[*func as usize] {
                return Err(err("undeclared function reference"));
            }
            Ok(Some((Vec::new(), one(ValType::FuncRef))))
        },
        Instr::Num(op) => {
            let (n, t, out) = num_sig(*op);
            let ins = if n == 2 {
                two(t, t)
            } else {
                one(t)
            };
            Ok(Some((ins, one(out))))
        },
        Instr::Simd(op) => {
            let (n, t0, t1, t2, out) = simd_sig(*op);
            let ins = if n == 3 {
                three(t0, t1, t2)
            } else if n == 2 {
                two(t0, t1)
            } else {
                one(t0)
            };
            Ok(Some((ins, one(out))))
        },
        Instr::SimdLane { op, lane } => {
            let (lanes, scalar, is_replace) = lane_sig(*op);
            if *lane as u32 >= lanes {
                return Err(err("invalid lane index"));
            }
            if is_replace {
                Ok(Some((two(v128, scalar), one(v128))))
            } else {
                Ok(Some((one(v128), one(scalar))))
            }
        },
        Instr::Shuffle(lanes) => {
            if !shuffle_lanes_ok(lanes) {
                return Err(err("invalid lane index"));
            }
            Ok(Some((two(v128, v128), one(v128))))
        },
        Instr::SimdMem { op, align, lane, .. } => {
            c.need_mem()?;
            let (natural_log, lanes, shape) = simd_mem_sig(*op);
            c.check_align(*align, natural_log)?;
            if lanes > 0 && *lane as u32 >= lanes {
                return Err(err("invalid lane index"));
            }
            if shape == 0 {
                // v128.store and the lane stores: v128 and an address.
                Ok(Some((two(ValType::I32, v128), Vec::new())))
            } else if shape == 1 {
                // Lane loads: v128 and an address, yielding a v128.
                Ok(Some((two(ValType::I32, v128), one(v128))))
            } else {
                Ok(Some((one(ValType::I32), one(v128))))
            }
        },
        _ => Ok(None),
    }
}

/// The fixed signature of an instruction, where it has one.
fn plain_sig_exec(c: &Checker, instr: &Instr) -> (r: Result<Option<(Vec<ValType>, Vec<ValType>)>, ValidateError>)
    requires
        c.inv(),
    ensures
        sig_agrees(plain_sig(c.env(), *instr), r),
        *instr matches Instr::SelectT { tys } ==> (tys@.len() != 1 ==> (r matches Err(e) && e.msg@ == "invalid result arity"@)),
{
    let a = access_sig_exec(c, instr)?;
    if a.is_some() {
        return Ok(a);
    }
    let m = memory_sig_exec(c, instr)?;
    if m.is_some() {
        return Ok(m);
    }
    numeric_sig_exec(c, instr)
}

/// Whether an instruction opens, closes or leaves a block.
spec fn is_control(i: Instr) -> bool {
    i is Unreachable || i is Nop || i is Block || i is Loop || i is If || i is Else || i is End
        || i is Br || i is BrIf || i is BrTable || i is Return
}

/// Whether an instruction pops an operand of a type it does not fix.
spec fn is_polymorphic(i: Instr) -> bool {
    i is Drop || i is RefIsNull || i matches Instr::Select { ty: None }
}

/// Type-checks one instruction of a function body.
fn step(c: &mut Checker, instr: &Instr) -> (r: Result<(), ValidateError>)
    requires
        old(c).inv(),
        old(c).ctrls@.len() > 0,
    ensures
        final(c).inv(),
        final(c).ctx == old(c).ctx,
        final(c).locals == old(c).locals,
        r is Ok <==> step_spec(old(c).env(), old(c).state(), *instr) is Some,
        r is Ok ==> step_spec(old(c).env(), old(c).state(), *instr) == Some(final(c).state()),
        *instr matches Instr::SelectT { tys } ==> (tys@.len() != 1 ==> (r matches Err(e) && e.msg@ == "invalid result arity"@)),
        *instr matches Instr::Select { ty: None } ==> (r matches Err(e) ==> e.msg@ == "type mismatch"@),
{
    match instr {
        Instr::Unreachable | Instr::Nop | Instr::Block { .. } | Instr::Loop { .. } | Instr::If { .. }
        | Instr::Else { .. } | Instr::End | Instr::Br { .. } | Instr::BrIf { .. }
        | Instr::BrTable { .. } | Instr::Return => step_control(c, instr),
        Instr::Drop | Instr::RefIsNull | Instr::Select { ty: None } => step_poly(c, instr),
        _ => step_plain(c, instr),
    }
}

/// Type-checks an instruction with a fixed signature: its operands are
/// popped and its results pushed.
fn step_plain(c: &mut Checker, instr: &Instr) -> (r: Result<(), ValidateError>)
    requires
        old(c).inv(),
        old(c).ctrls@.len() > 0,
    ensures
        final(c).inv(),
        final(c).ctx == old(c).ctx,
        final(c).locals == old(c).locals,
        r is Ok <==> match plain_sig(old(c).env(), *instr) {
            Sig::Of(ins, outs) => pop_all(old(c).stack@, old(c).top_model(), ins) is Some,
            Sig::Invalid => false,
            Sig::Other => true,
        },
        r is Ok ==> final(c).state() == match plain_sig(old(c).env(), *instr) {
            Sig::Of(ins, outs) => with_stack(
                old(c).state(),
                push_all(pop_all(old(c).stack@, old(c).top_model(), ins).unwrap(), outs),
            ),
            _ => old(c).state(),
        },
        *instr matches Instr::SelectT { tys } ==> (tys@.len() != 1 ==> (r matches Err(e) && e.msg@ == "invalid result arity"@)),
{
    let sig = plain_sig_exec(c, instr)?;
    if let Some((ins, outs)) = sig {
        c.pop_vals(ins.as_slice())?;
        c.push_vals(outs.as_slice());
    }
    Ok(())
}

/// Type-checks `drop`, `ref.is_null` and the untyped `select`.
fn step_poly(c: &mut Checker, instr: &Instr) -> (r: Result<(), ValidateError>)
    requires
        old(c).inv(),
        old(c).ctrls@.len() > 0,
        is_polymorphic(*instr),
    ensures
        final(c).inv(),
        final(c).ctx == old(c).ctx,
        final(c).locals == old(c).locals,
        r is Ok <==> step_spec(old(c).env(), old(c).state(), *instr) is Some,
        r is Ok ==> step_spec(old(c).env(), old(c).state(), *instr) == Some(final(c).state()),
        r matches Err(e) ==> e.msg@ == "type mismatch"@,
{
    match instr {
        Instr::Drop => {
            c.pop_any()?;
        },
        Instr::RefIsNull => {
            let t = c.pop_any()?;
            if let Some(x) = t {
                if !x.is_ref() {
                    return Err(err("type mismatch"));
                }
            }
            c.push(ValType::I32);
        },
        _ => {
            c.pop(ValType::I32)?;
            let t1 = c.pop_any()?;
            let t2 = c.pop_any()?;
            if let Some(a) = t1 {
                if a.is_ref() {
                    return Err(err("type mismatch"));
                }
            }
            if let Some(b) = t2 {
                if b.is_ref() {
                    return Err(err("type mismatch"));
                }
            }
            match (t1, t2) {
                (Some(a), Some(b)) => {
                    if a != b {
                        return Err(err("type mismatch"));
                    }
                    c.push(a);
                },
                (Some(a), None) => c.push(a),
                (None, Some(b)) => c.push(b),
                (None, None) => c.push_bot(),
            }
        },
    }
    Ok(())
}

/// Checks the operands `ts[..n]` that a `br_table` target carries and
/// leaves them as they were.
fn keep_vals(c: &mut Checker, ts: &[ValType], n: usize) -> (r: Result<(), ValidateError>)
    requires
        old(c).inv(),
        old(c).ctrls@.len() > 0,
        n <= ts@.len(),
    ensures
        final(c).inv(),
        final(c).ctrls == old(c).ctrls,
        final(c).ctx == old(c).ctx,
        final(c).locals == old(c).locals,
        r is Ok <==> keep_all(old(c).stack@, old(c).top_model(), ts@.take(n as int)) is Some,
        r is Ok ==> keep_all(old(c).stack@, old(c).top_model(), ts@.take(n as int)) == Some(
            final(c).stack@,
        ),
    decreases n,
{
    if n == 0 {
        return Ok(());
    }
    proof {
        assert(ts@.take(n as int).last() == ts@[n - 1]);
        assert(ts@.take(n as int).drop_last() =~= ts@.take(n - 1));
    }
    let t = c.pop_any()?;
    if let Some(v) = t {
        if v != ts[n - 1] {
            return Err(err("type mismatch"));
        }
    }
    keep_vals(c, ts, n - 1)?;
    match t {
        Some(v) => c.push(v),
        None => c.push_bot(),
    }
    Ok(())
}

/// A `br_table` target list that fails on a prefix fails as a whole.
proof fn lemma_targets_prefix(st: TypeState, ds: Seq<u32>, k: int, n: nat)
    requires
        0 <= k <= ds.len(),
        table_targets(st, ds.take(k), n) is None,
    ensures
        table_targets(st, ds, n) is None,
    decreases ds.len(),
{
    if k == ds.len() {
        assert(ds.take(k) =~= ds);
    } else {
        assert(ds.drop_last().take(k) =~= ds.take(k));
        lemma_targets_prefix(st, ds.drop_last(), k, n);
    }
}

/// Type-checks a `br_table`: every target carries operands of the
/// default's types, which the stack must provide.
fn step_br_table(c: &mut Checker, instr: &Instr) -> (r: Result<(), ValidateError>)
    requires
        old(c).inv(),
        old(c).ctrls@.len() > 0,
        instr is BrTable,
    ensures
        final(c).inv(),
        final(c).ctx == old(c).ctx,
        final(c).locals == old(c).locals,
        r is Ok <==> step_spec(old(c).env(), old(c).state(), *instr) is Some,
        r is Ok ==> step_spec(old(c).env(), old(c).state(), *instr) == Some(final(c).state()),
{
    match instr {
        Instr::BrTable { depths, default } => {
            c.pop(ValType::I32)?;
            let ghost st1 = c.state();
            let dts = c.label_types(*default)?;
            let mut k: usize = 0;
            assert(depths@.take(0) =~= Seq::<u32>::empty());
            while k < depths.len()
                invariant
                    c.inv(),
                    c.ctrls@.len() > 0,
                    c.ctrls == old(c).ctrls,
                    c.ctx == old(c).ctx,
                    c.locals == old(c).locals,
                    st1.frames == c.state().frames,
                    st1 == with_stack(old(c).state(), st1.stack),
                    pop_one(old(c).stack@, old(c).top_model(), ValType::I32) == Some(st1.stack),
                    label_types(old(c).state(), *default) == Some(dts@),
                    *instr == (Instr::BrTable { depths: *depths, default: *default }),
                    k <= depths@.len(),
                    table_targets(st1, depths@.take(k as int), dts@.len()) == Some(c.stack@),
                decreases depths@.len() - k,
            {
                proof {
                    assert(depths@.take(k + 1).drop_last() =~= depths@.take(k as int));
                    assert(depths@.take(k + 1).last() == depths@[k as int]);
                }
                let ts = match c.label_types(depths[k]) {
                    Ok(ts) => ts,
                    Err(e) => {
                        proof {
                            lemma_targets_prefix(st1, depths@, k + 1, dts@.len());
                        }
                        return Err(e);
                    },
                };
                if ts.len() != dts.len() {
                    proof {
                        lemma_targets_prefix(st1, depths@, k + 1, dts@.len());
                    }
                    return Err(err("type mismatch"));
                }
                match keep_vals(c, ts.as_slice(), ts.len()) {
                    Ok(()) => {},
                    Err(e) => {
                        proof {
                            assert(ts@.take(ts@.len() as int) =~= ts@);
                            lemma_targets_prefix(st1, depths@, k + 1, dts@.len());
                        }
                        return Err(e);
                    },
                }
                proof {
                    assert(ts@.take(ts@.len() as int) =~= ts@);
                }
                k = k + 1;
            }
            assert(depths@.take(depths@.len() as int) =~= depths@);
            c.pop_vals(dts.as_slice())?;
            c.unreachable();
        },
        _ => {},
    }
    Ok(())
}

/// Type-checks a control instruction.
fn step_control(c: &mut Checker, instr: &Instr) -> (r: Result<(), ValidateError>)
    requires
        old(c).inv(),
        old(c).ctrls@.len() > 0,
        is_control(*instr),
    ensures
        final(c).inv(),
        final(c).ctx == old(c).ctx,
        final(c).locals == old(c).locals,
        r is Ok <==> step_spec(old(c).env(), old(c).state(), *instr) is Some,
        r is Ok ==> step_spec(old(c).env(), old(c).state(), *instr) == Some(final(c).state()),
{
    match instr {
        Instr::Unreachable => c.unreachable(),
        Instr::Nop => {},
        Instr::Block { bt, .. } => {
            let (ins, outs) = c.block_type(bt)?;
            c.pop_vals(ins.as_slice())?;
            c.push_ctrl(Kind::Block, ins, outs);
        },
        Instr::Loop { bt, .. } => {
            let (ins, outs) = c.block_type(bt)?;
            c.pop_vals(ins.as_slice())?;
            c.push_ctrl(Kind::Loop, ins, outs);
        },
        Instr::If { bt, .. } => {
            c.pop(ValType::I32)?;
            let (ins, outs) = c.block_type(bt)?;
            c.pop_vals(ins.as_slice())?;
            c.push_ctrl(Kind::If, ins, outs);
        },
        Instr::Else { .. } => {
            let f = c.pop_ctrl()?;
            if f.kind != Kind::If {
                return Err(err("type mismatch"));
            }
            c.push_ctrl(Kind::Else, f.ins, f.outs);
        },
        Instr::End => {
            let f = c.pop_ctrl()?;
            if f.kind == Kind::If && !vals_eq(f.ins.as_slice(), f.outs.as_slice()) {
                // A missing else arm must be an identity.
                return Err(err("type mismatch"));
            }
            c.push_vals(f.outs.as_slice());
        },
        Instr::Br { depth } => {
            let ts = c.label_types(*depth)?;
            c.pop_vals(ts.as_slice())?;
            c.unreachable();
        },
        Instr::BrIf { depth } => {
            c.pop(ValType::I32)?;
            let ts = c.label_types(*depth)?;
            c.pop_vals(ts.as_slice())?;
            c.push_vals(ts.as_slice());
        },
        Instr::BrTable { .. } => {
            return step_br_table(c, instr);
        },
        Instr::Return => {
            let outs = copy_vals(c.ctrls[0].outs.as_slice());
            c.pop_vals(outs.as_slice())?;
            c.unreachable();
        },
        _ => {},
    }
    Ok(())
}

/// Whether every lane index of a shuffle selects one of the 32 input lanes.
fn shuffle_lanes_ok(lanes: &[u8; 16]) -> (r: bool)
    ensures
        r == forall|k: int| 0 <= k < 16 ==> lanes@[k] < 32,
{
    let mut k: usize = 0;
    while k < 16
        invariant
            k <= 16,
            forall|j: int| 0 <= j < k ==> lanes@[j] < 32,
        decreases 16 - k,
    {
        if lanes[k] >= 32 {
            return false;
        }
        k = k + 1;
    }
    true
}

/// Natural alignment exponent and result type of a scalar load.
fn load_sig(op: LoadOp) -> (r: (u32, ValType))
    ensures
        r == load_type(op),
{
    match op {
        LoadOp::I32 => (2, ValType::I32),
        LoadOp::I64 => (3, ValType::I64),
        LoadOp::F32 => (2, ValType::F32),
        LoadOp::F64 => (3, ValType::F64),
        LoadOp::I32L8S | LoadOp::I32L8U => (0, ValType::I32),
        LoadOp::I32L16S | LoadOp::I32L16U => (1, ValType::I32),
        LoadOp::I64L8S | LoadOp::I64L8U => (0, ValType::I64),
        LoadOp::I64L16S | LoadOp::I64L16U => (1, ValType::I64),
        LoadOp::I64L32S | LoadOp::I64L32U => (2, ValType::I64),
    }
}

/// Natural alignment exponent and operand type of a scalar store.
fn store_sig(op: StoreOp) -> (r: (u32, ValType))
    ensures
        r == store_type(op),
{
    match op {
        StoreOp::I32 => (2, ValType::I32),
        StoreOp::I64 => (3, ValType::I64),
        StoreOp::F32 => (2, ValType::F32),
        StoreOp::F64 => (3, ValType::F64),
        StoreOp::I32S8 => (0, ValType::I32),
        StoreOp::I32S16 => (1, ValType::I32),
        StoreOp::I64S8 => (0, ValType::I64),
        StoreOp::I64S16 => (1, ValType::I64),
        StoreOp::I64S32 => (2, ValType::I64),
    }
}

/// Lane count, scalar type, and whether a lane operator replaces a lane.
fn lane_sig(op: SimdLaneOp) -> (r: (u32, ValType, bool))
    ensures
        r == lane_type(op),
{
    match op {
        SimdLaneOp::I8x16ExtractLaneS | SimdLaneOp::I8x16ExtractLaneU => (16, ValType::I32, false),
        SimdLaneOp::I8x16ReplaceLane => (16, ValType::I32, true),
        SimdLaneOp::I16x8ExtractLaneS | SimdLaneOp::I16x8ExtractLaneU => (8, ValType::I32, false),
        SimdLaneOp::I16x8ReplaceLane => (8, ValType::I32, true),
        SimdLaneOp::I32x4ExtractLane => (4, ValType::I32, false),
        SimdLaneOp::I32x4ReplaceLane => (4, ValType::I32, true),
        SimdLaneOp::I64x2ExtractLane => (2, ValType::I64, false),
        SimdLaneOp::I64x2ReplaceLane => (2, ValType::I64, true),
        SimdLaneOp::F32x4ExtractLane => (4, ValType::F32, false),
        SimdLaneOp::F32x4ReplaceLane => (4, ValType::F32, true),
        SimdLaneOp::F64x2ExtractLane => (2, ValType::F64, false),
        SimdLaneOp::F64x2ReplaceLane => (2, ValType::F64, true),
    }
}

/// Natural alignment exponent, lane count (0 when there is no lane) and
/// stack shape (0: store, 1: lane load, 2: load) of a SIMD memory operator.
fn simd_mem_sig(op: SimdMemOp) -> (r: (u32, u32, u8))
    ensures
        r == simd_mem_type(op),
{
    match op {
        SimdMemOp::Load => (4, 0, 2),
        SimdMemOp::Store => (4, 0, 0),
        SimdMemOp::Load8x8S | SimdMemOp::Load8x8U | SimdMemOp::Load16x4S | SimdMemOp::Load16x4U
        | SimdMemOp::Load32x2S | SimdMemOp::Load32x2U => (3, 0, 2),
        SimdMemOp::Load8Splat => (0, 0, 2),
        SimdMemOp::Load16Splat => (1, 0, 2),
        SimdMemOp::Load32Splat => (2, 0, 2),
        SimdMemOp::Load64Splat => (3, 0, 2),
        SimdMemOp::Load32Zero => (2, 0, 2),
        SimdMemOp::Load64Zero => (3, 0, 2),
        SimdMemOp::Load8Lane => (0, 16, 1),
        SimdMemOp::Load16Lane => (1, 8, 1),
        SimdMemOp::Load32Lane => (2, 4, 1),
        SimdMemOp::Load64Lane => (3, 2, 1),
        SimdMemOp::Store8Lane => (0, 16, 0),
        SimdMemOp::Store16Lane => (1, 8, 0),
        SimdMemOp::Store32Lane => (2, 4, 0),
        SimdMemOp::Store64Lane => (3, 2, 0),
    }
}

} // verus!
