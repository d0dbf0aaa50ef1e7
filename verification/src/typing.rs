//! The typing rules of function bodies, as a machine over operand types:
//! what each instruction pops and pushes, how structured blocks open and
//! close, and where code becomes unreachable (its operand stack then
//! yields the bottom type, which matches any type).
use vstd::prelude::*;
use vstd::arithmetic::power2::{pow2, lemma2_to64, lemma_pow2_strictly_increases};
use crate::module::{BlockType, Instr, LoadOp, Module, NumOp, SimdLaneOp, SimdMemOp, SimdOp, StoreOp};
use crate::types::{GlobalType, MemType, RefType, TableType, ValType, reftype_val};

verus! {

/// The kind of a control frame.
#[derive(Clone, Copy, PartialEq, Eq, Debug, Structural)]
pub enum Kind {
    Block,
    Loop,
    If,
    Else,
}

/// A control frame: its kind, parameter and result types, the operand
/// height at entry, and whether the rest of the block is unreachable.
pub struct TypeFrame {
    pub kind: Kind,
    pub ins: Seq<ValType>,
    pub outs: Seq<ValType>,
    pub height: nat,
    pub unreachable: bool,
}

/// Operand types (`None` is the bottom type) and control frames, the
/// innermost last.
pub struct TypeState {
    pub stack: Seq<Option<ValType>>,
    pub frames: Seq<TypeFrame>,
}

/// What the rules read: the module (its types and segments), its index
/// spaces, which functions `ref.func` may name, and the body's locals.
pub struct TypeEnv {
    pub m: Module,
    pub funcs: Seq<u32>,
    pub tables: Seq<TableType>,
    pub mems: Seq<MemType>,
    pub globals: Seq<GlobalType>,
    pub refs: Seq<bool>,
    pub locals: Seq<ValType>,
}

/// The innermost frame.
pub open spec fn top(st: TypeState) -> TypeFrame {
    st.frames.last()
}

/// The same frames over other operands.
pub open spec fn with_stack(st: TypeState, s: Seq<Option<ValType>>) -> TypeState {
    TypeState { stack: s, frames: st.frames }
}

/// Whether a value type is a reference type.
pub open spec fn is_reftype(t: ValType) -> bool {
    t is FuncRef || t is ExternRef
}

/// Pops one operand of any type inside frame `f`: at the frame's height,
/// unreachable code yields bottom and keeps the stack, reachable code
/// fails.
pub open spec fn pop_any(s: Seq<Option<ValType>>, f: TypeFrame) -> Option<(Seq<Option<ValType>>, Option<ValType>)> {
    if s.len() <= f.height {
        if f.unreachable {
            Some((s, None))
        } else {
            None
        }
    } else {
        Some((s.drop_last(), s.last()))
    }
}

/// Pops an operand of type `want` (bottom matches it).
pub open spec fn pop_one(s: Seq<Option<ValType>>, f: TypeFrame, want: ValType) -> Option<Seq<Option<ValType>>> {
    match pop_any(s, f) {
        Some((rest, t)) => if t matches Some(x) && x != want {
            None
        } else {
            Some(rest)
        },
        None => None,
    }
}

/// Pops operands of types `ts`, the last first.
pub open spec fn pop_all(s: Seq<Option<ValType>>, f: TypeFrame, ts: Seq<ValType>) -> Option<Seq<Option<ValType>>>
    decreases ts.len(),
{
    if ts.len() == 0 {
        Some(s)
    } else {
        match pop_one(s, f, ts.last()) {
            Some(rest) => pop_all(rest, f, ts.drop_last()),
            None => None,
        }
    }
}

/// Pushes operands of types `ts`, in order.
pub open spec fn push_all(s: Seq<Option<ValType>>, ts: Seq<ValType>) -> Seq<Option<ValType>> {
    s + ts.map_values(|t: ValType| Some(t))
}

/// Cuts the operands back to the innermost frame's height and marks the
/// rest of that frame unreachable.
pub open spec fn set_unreachable(st: TypeState) -> TypeState {
    let f = top(st);
    TypeState {
        stack: st.stack.take(f.height as int),
        frames: st.frames.update(
            st.frames.len() - 1,
            TypeFrame { kind: f.kind, ins: f.ins, outs: f.outs, height: f.height, unreachable: true },
        ),
    }
}

/// Opens a frame over the current operands and pushes its parameters.
pub open spec fn push_frame(st: TypeState, kind: Kind, ins: Seq<ValType>, outs: Seq<ValType>) -> TypeState {
    TypeState {
        stack: push_all(st.stack, ins),
        frames: st.frames.push(
            TypeFrame { kind, ins, outs, height: st.stack.len(), unreachable: false },
        ),
    }
}

/// Closes the innermost frame: its result types must be exactly the
/// operands above its height.
pub open spec fn pop_frame(st: TypeState) -> Option<(TypeState, TypeFrame)> {
    if st.frames.len() == 0 {
        None
    } else {
        let f = top(st);
        match pop_all(st.stack, f, f.outs) {
            Some(s) => if s.len() != f.height {
                None
            } else {
                Some((TypeState { stack: s, frames: st.frames.drop_last() }, f))
            },
            None => None,
        }
    }
}

/// The operand types a branch to label `depth` carries: a loop's
/// parameters, any other block's results.
pub open spec fn label_types(st: TypeState, depth: u32) -> Option<Seq<ValType>> {
    if depth < st.frames.len() {
        let f = st.frames[st.frames.len() - 1 - depth];
        Some(
            if f.kind == Kind::Loop {
                f.ins
            } else {
                f.outs
            },
        )
    } else {
        None
    }
}

/// Parameter and result types of a block type.
pub open spec fn block_sig(env: TypeEnv, bt: BlockType) -> Option<(Seq<ValType>, Seq<ValType>)> {
    match bt {
        BlockType::Empty => Some((seq![], seq![])),
        BlockType::Val(t) => Some((seq![], seq![t])),
        BlockType::Type(i) => if i < env.m.types@.len() {
            Some((env.m.types@[i as int].params@, env.m.types@[i as int].results@))
        } else {
            None
        },
    }
}

/// Enters a block: its parameters move from the enclosing operands into
/// the new frame.
pub open spec fn enter(env: TypeEnv, st: TypeState, bt: BlockType, kind: Kind) -> Option<TypeState> {
    match block_sig(env, bt) {
        Some((ins, outs)) => match pop_all(st.stack, top(st), ins) {
            Some(s) => Some(push_frame(with_stack(st, s), kind, ins, outs)),
            None => None,
        },
        None => None,
    }
}

/// Checks the operands a branch target of `br_table` carries and leaves
/// them as they were (bottom stays bottom).
pub open spec fn keep_all(s: Seq<Option<ValType>>, f: TypeFrame, ts: Seq<ValType>) -> Option<Seq<Option<ValType>>>
    decreases ts.len(),
{
    if ts.len() == 0 {
        Some(s)
    } else {
        match pop_any(s, f) {
            Some((rest, t)) => if t matches Some(x) && x != ts.last() {
                None
            } else {
                match keep_all(rest, f, ts.drop_last()) {
                    Some(s2) => Some(s2.push(t)),
                    None => None,
                }
            },
            None => None,
        }
    }
}

/// The targets of a `br_table` in order: each must exist, carry `n`
/// operands, and accept the operands on the stack.
pub open spec fn table_targets(st: TypeState, depths: Seq<u32>, n: nat) -> Option<Seq<Option<ValType>>>
    decreases depths.len(),
{
    if depths.len() == 0 {
        Some(st.stack)
    } else {
        match table_targets(st, depths.drop_last(), n) {
            Some(s) => match label_types(st, depths.last()) {
                Some(ts) => if ts.len() != n {
                    None
                } else {
                    keep_all(s, top(st), ts)
                },
                None => None,
            },
            None => None,
        }
    }
}

/// An untyped `select`: two operands of one numeric or vector type (or
/// bottom) under an `i32`.
pub open spec fn select_any(st: TypeState) -> Option<TypeState> {
    let f = top(st);
    match pop_one(st.stack, f, ValType::I32) {
        Some(s1) => match pop_any(s1, f) {
            Some((s2, t1)) => match pop_any(s2, f) {
                Some((s3, t2)) => if (t1 matches Some(a) && is_reftype(a)) || (t2 matches Some(b)
                    && is_reftype(b)) || (t1 is Some && t2 is Some && t1 != t2) {
                    None
                } else {
                    Some(
                        with_stack(
                            st,
                            s3.push(
                                if t1 is Some {
                                    t1
                                } else {
                                    t2
                                },
                            ),
                        ),
                    )
                },
                None => None,
            },
            None => None,
        },
        None => None,
    }
}

/// How an instruction with fixed operand and result types is typed:
/// `Invalid` where one of its immediates is out of range, `Other` for the
/// instructions typed otherwise.
pub enum Sig {
    Other,
    Invalid,
    Of(Seq<ValType>, Seq<ValType>),
}

/// Three `i32` operands.
pub open spec fn i32x3() -> Seq<ValType> {
    seq![ValType::I32, ValType::I32, ValType::I32]
}

/// The fixed signature of calls and of the variable and table
/// instructions.
pub open spec fn access_sig(env: TypeEnv, i: Instr) -> Sig {
    match i {
        Instr::Call { func } => if func < env.funcs.len() {
            let ft = env.m.types@[env.funcs[func as int] as int];
            Sig::Of(ft.params@, ft.results@)
        } else {
            Sig::Invalid
        },
        Instr::CallIndirect { table, ty } => if table < env.tables.len()
            && env.tables[table as int].elem == RefType::FuncRef && ty < env.m.types@.len() {
            let ft = env.m.types@[ty as int];
            Sig::Of(ft.params@.push(ValType::I32), ft.results@)
        } else {
            Sig::Invalid
        },
        Instr::Select { ty: Some(t) } => Sig::Of(seq![t, t, ValType::I32], seq![t]),
        Instr::SelectT { tys } => if tys@.len() == 1 {
            Sig::Of(seq![tys@[0], tys@[0], ValType::I32], seq![tys@[0]])
        } else {
            Sig::Invalid
        },
        Instr::LocalGet { idx } => if idx < env.locals.len() {
            Sig::Of(seq![], seq![env.locals[idx as int]])
        } else {
            Sig::Invalid
        },
        Instr::LocalSet { idx } => if idx < env.locals.len() {
            Sig::Of(seq![env.locals[idx as int]], seq![])
        } else {
            Sig::Invalid
        },
        Instr::LocalTee { idx } => if idx < env.locals.len() {
            Sig::Of(seq![env.locals[idx as int]], seq![env.locals[idx as int]])
        } else {
            Sig::Invalid
        },
        Instr::GlobalGet { idx } => if idx < env.globals.len() {
            Sig::Of(seq![], seq![env.globals[idx as int].val])
        } else {
            Sig::Invalid
        },
        Instr::GlobalSet { idx } => if idx < env.globals.len() && env.globals[idx as int].mutable {
            Sig::Of(seq![env.globals[idx as int].val], seq![])
        } else {
            Sig::Invalid
        },
        Instr::TableGet { table } => if table < env.tables.len() {
            Sig::Of(seq![ValType::I32], seq![reftype_val(env.tables[table as int].elem)])
        } else {
            Sig::Invalid
        },
        Instr::TableSet { table } => if table < env.tables.len() {
            Sig::Of(seq![ValType::I32, reftype_val(env.tables[table as int].elem)], seq![])
        } else {
            Sig::Invalid
        },
        Instr::TableInit { table, elem } => if table < env.tables.len() && elem < env.m.elems@.len()
            && env.m.elems@[elem as int].ty == env.tables[table as int].elem {
            Sig::Of(i32x3(), seq![])
        } else {
            Sig::Invalid
        },
        Instr::ElemDrop { elem } => if elem < env.m.elems@.len() {
            Sig::Of(seq![], seq![])
        } else {
            Sig::Invalid
        },
        Instr::TableCopy { dst, src } => if dst < env.tables.len() && src < env.tables.len()
            && env.tables[dst as int].elem == env.tables[src as int].elem {
            Sig::Of(i32x3(), seq![])
        } else {
            Sig::Invalid
        },
        Instr::TableGrow { table } => if table < env.tables.len() {
            Sig::Of(seq![reftype_val(env.tables[table as int].elem), ValType::I32], seq![ValType::I32])
        } else {
            Sig::Invalid
        },
        Instr::TableSize { table } => if table < env.tables.len() {
            Sig::Of(seq![], seq![ValType::I32])
        } else {
            Sig::Invalid
        },
        Instr::TableFill { table } => if table < env.tables.len() {
            Sig::Of(
                seq![ValType::I32, reftype_val(env.tables[table as int].elem), ValType::I32],
                seq![],
            )
        } else {
            Sig::Invalid
        },
        _ => Sig::Other,
    }
}

/// The fixed signature of the memory instructions.
pub open spec fn memory_sig(env: TypeEnv, i: Instr) -> Sig {
    let has_mem = env.mems.len() > 0;
    match i {
        Instr::Load { op, align, .. } => if has_mem && align <= load_type(op).0 {
            Sig::Of(seq![ValType::I32], seq![load_type(op).1])
        } else {
            Sig::Invalid
        },
        Instr::Store { op, align, .. } => if has_mem && align <= store_type(op).0 {
            Sig::Of(seq![ValType::I32, store_type(op).1], seq![])
        } else {
            Sig::Invalid
        },
        Instr::MemorySize => if has_mem {
            Sig::Of(seq![], seq![ValType::I32])
        } else {
            Sig::Invalid
        },
        Instr::MemoryGrow => if has_mem {
            Sig::Of(seq![ValType::I32], seq![ValType::I32])
        } else {
            Sig::Invalid
        },
        Instr::MemoryInit { data } => if has_mem && data < env.m.datas@.len() {
            Sig::Of(i32x3(), seq![])
        } else {
            Sig::Invalid
        },
        Instr::DataDrop { data } => if data < env.m.datas@.len() {
            Sig::Of(seq![], seq![])
        } else {
            Sig::Invalid
        },
        Instr::MemoryCopy | Instr::MemoryFill => if has_mem {
            Sig::Of(i32x3(), seq![])
        } else {
            Sig::Invalid
        },
        _ => Sig::Other,
    }
}

/// The fixed signature of constants, references, numeric and vector
/// instructions.
pub open spec fn numeric_sig(env: TypeEnv, i: Instr) -> Sig {
    match i {
        Instr::I32Const(_) => Sig::Of(seq![], seq![ValType::I32]),
        Instr::I64Const(_) => Sig::Of(seq![], seq![ValType::I64]),
        Instr::F32Const(_) => Sig::Of(seq![], seq![ValType::F32]),
        Instr::F64Const(_) => Sig::Of(seq![], seq![ValType::F64]),
        Instr::V128Const(_) => Sig::Of(seq![], seq![ValType::V128]),
        Instr::RefNull(t) => Sig::Of(seq![], seq![reftype_val(t)]),
        Instr::RefFunc { func } => if func < env.funcs.len() && func < env.refs.len()
            && env.refs[func as int] {
            Sig::Of(seq![], seq![ValType::FuncRef])
        } else {
            Sig::Invalid
        },
        Instr::Num(op) => {
            let (n, t, out) = num_type(op);
            Sig::Of(
                if n == 2 {
                    seq![t, t]
                } else {
                    seq![t]
                },
                seq![out],
            )
        },
        Instr::Simd(op) => {
            let (n, t0, t1, t2, out) = simd_type(op);
            Sig::Of(
                if n == 3 {
                    seq![t0, t1, t2]
                } else if n == 2 {
                    seq![t0, t1]
                } else {
                    seq![t0]
                },
                seq![out],
            )
        },
        Instr::SimdLane { op, lane } => {
            let (lanes, scalar, replace) = lane_type(op);
            if lane < lanes {
                if replace {
                    Sig::Of(seq![ValType::V128, scalar], seq![ValType::V128])
                } else {
                    Sig::Of(seq![ValType::V128], seq![scalar])
                }
            } else {
                Sig::Invalid
            }
        },
        Instr::Shuffle(lanes) => if forall|k: int| 0 <= k < 16 ==> lanes@[k] < 32 {
            Sig::Of(seq![ValType::V128, ValType::V128], seq![ValType::V128])
        } else {
            Sig::Invalid
        },
        Instr::SimdMem { op, align, lane, .. } => {
            let (natural, lanes, shape) = simd_mem_type(op);
            if env.mems.len() > 0 && align <= natural && (lanes == 0 || lane < lanes) {
                if shape == 0 {
                    Sig::Of(seq![ValType::I32, ValType::V128], seq![])
                } else if shape == 1 {
                    Sig::Of(seq![ValType::I32, ValType::V128], seq![ValType::V128])
                } else {
                    Sig::Of(seq![ValType::I32], seq![ValType::V128])
                }
            } else {
                Sig::Invalid
            }
        },
        _ => Sig::Other,
    }
}

/// The fixed signature of an instruction, where it has one.
pub open spec fn plain_sig(env: TypeEnv, i: Instr) -> Sig {
    match access_sig(env, i) {
        Sig::Other => match memory_sig(env, i) {
            Sig::Other => numeric_sig(env, i),
            s => s,
        },
        s => s,
    }
}

/// One typing step: the state after instruction `i`, or `None` where it
/// does not type-check.
pub open spec fn step_spec(env: TypeEnv, st: TypeState, i: Instr) -> Option<TypeState> {
    if st.frames.len() == 0 {
        None
    } else {
        let f = top(st);
        match i {
            Instr::Unreachable => Some(set_unreachable(st)),
            Instr::Nop => Some(st),
            Instr::Block { bt, .. } => enter(env, st, bt, Kind::Block),
            Instr::Loop { bt, .. } => enter(env, st, bt, Kind::Loop),
            Instr::If { bt, .. } => match pop_one(st.stack, f, ValType::I32) {
                Some(s) => enter(env, with_stack(st, s), bt, Kind::If),
                None => None,
            },
            Instr::Else { .. } => match pop_frame(st) {
                Some((st2, g)) => if g.kind == Kind::If {
                    Some(push_frame(st2, Kind::Else, g.ins, g.outs))
                } else {
                    None
                },
                None => None,
            },
            Instr::End => match pop_frame(st) {
                Some((st2, g)) => if g.kind == Kind::If && g.ins != g.outs {
                    None
                } else {
                    Some(with_stack(st2, push_all(st2.stack, g.outs)))
                },
                None => None,
            },
            Instr::Br { depth } => match label_types(st, depth) {
                Some(ts) => match pop_all(st.stack, f, ts) {
                    Some(s) => Some(set_unreachable(with_stack(st, s))),
                    None => None,
                },
                None => None,
            },
            Instr::BrIf { depth } => match pop_one(st.stack, f, ValType::I32) {
                Some(s) => match label_types(st, depth) {
                    Some(ts) => match pop_all(s, f, ts) {
                        Some(s2) => Some(with_stack(st, push_all(s2, ts))),
                        None => None,
                    },
                    None => None,
                },
                None => None,
            },
            Instr::BrTable { depths, default } => match pop_one(st.stack, f, ValType::I32) {
                Some(s) => match label_types(st, default) {
                    Some(dts) => match table_targets(with_stack(st, s), depths@, dts.len()) {
                        Some(s2) => match pop_all(s2, f, dts) {
                            Some(s3) => Some(set_unreachable(with_stack(st, s3))),
                            None => None,
                        },
                        None => None,
                    },
                    None => None,
                },
                None => None,
            },
            Instr::Return => match pop_all(st.stack, f, st.frames[0].outs) {
                Some(s) => Some(set_unreachable(with_stack(st, s))),
                None => None,
            },
            Instr::Drop => match pop_any(st.stack, f) {
                Some((s, _)) => Some(with_stack(st, s)),
                None => None,
            },
            Instr::Select { ty: None } => select_any(st),
            Instr::RefIsNull => match pop_any(st.stack, f) {
                Some((s, t)) => if t matches Some(x) && !is_reftype(x) {
                    None
                } else {
                    Some(with_stack(st, s.push(Some(ValType::I32))))
                },
                None => None,
            },
            _ => match plain_sig(env, i) {
                Sig::Of(ins, outs) => match pop_all(st.stack, f, ins) {
                    Some(s) => Some(with_stack(st, push_all(s, outs))),
                    None => None,
                },
                Sig::Invalid => None,
                Sig::Other => Some(st),
            },
        }
    }
}

/// The state in which a body with result types `results` starts: no
/// operands, and one frame for the whole body.
pub open spec fn body_start(results: Seq<ValType>) -> TypeState {
    TypeState {
        stack: seq![],
        frames: seq![
            TypeFrame { kind: Kind::Block, ins: seq![], outs: results, height: 0, unreachable: false },
        ],
    }
}

/// Whether the instructions from index `k` on type-check from state `st`,
/// up to the `end` that closes the body's frame.
pub open spec fn body_checks(env: TypeEnv, st: TypeState, body: Seq<Instr>, k: int) -> bool
    decreases body.len() - k,
{
    if 0 <= k < body.len() {
        match step_spec(env, st, body[k]) {
            Some(next) => next.frames.len() == 0 || body_checks(env, next, body, k + 1),
            None => false,
        }
    } else {
        false
    }
}

/// The operand count (one or two, all of one type), operand type and result type of a numeric operator.
pub open spec fn num_type(op: NumOp) -> (u8, ValType, ValType) {
    match op {
        NumOp::I32Eqz => (1, ValType::I32, ValType::I32),
        NumOp::I64Eqz => (1, ValType::I64, ValType::I32),
        NumOp::I32Eq | NumOp::I32Ne | NumOp::I32LtS | NumOp::I32LtU | NumOp::I32GtS | NumOp::I32GtU | NumOp::I32LeS | NumOp::I32LeU | NumOp::I32GeS | NumOp::I32GeU => (2, ValType::I32, ValType::I32),
        NumOp::I64Eq | NumOp::I64Ne | NumOp::I64LtS | NumOp::I64LtU | NumOp::I64GtS | NumOp::I64GtU | NumOp::I64LeS | NumOp::I64LeU | NumOp::I64GeS | NumOp::I64GeU => (2, ValType::I64, ValType::I32),
        NumOp::F32Eq | NumOp::F32Ne | NumOp::F32Lt | NumOp::F32Gt | NumOp::F32Le | NumOp::F32Ge => (2, ValType::F32, ValType::I32),
        NumOp::F64Eq | NumOp::F64Ne | NumOp::F64Lt | NumOp::F64Gt | NumOp::F64Le | NumOp::F64Ge => (2, ValType::F64, ValType::I32),
        NumOp::I32Clz | NumOp::I32Ctz | NumOp::I32Popcnt | NumOp::I32Extend8S | NumOp::I32Extend16S => (1, ValType::I32, ValType::I32),
        NumOp::I32Add | NumOp::I32Sub | NumOp::I32Mul | NumOp::I32DivS | NumOp::I32DivU | NumOp::I32RemS | NumOp::I32RemU | NumOp::I32And | NumOp::I32Or | NumOp::I32Xor | NumOp::I32Shl | NumOp::I32ShrS | NumOp::I32ShrU | NumOp::I32Rotl | NumOp::I32Rotr => (2, ValType::I32, ValType::I32),
        NumOp::I64Clz | NumOp::I64Ctz | NumOp::I64Popcnt | NumOp::I64Extend8S | NumOp::I64Extend16S | NumOp::I64Extend32S => (1, ValType::I64, ValType::I64),
        NumOp::I64Add | NumOp::I64Sub | NumOp::I64Mul | NumOp::I64DivS | NumOp::I64DivU | NumOp::I64RemS | NumOp::I64RemU | NumOp::I64And | NumOp::I64Or | NumOp::I64Xor | NumOp::I64Shl | NumOp::I64ShrS | NumOp::I64ShrU | NumOp::I64Rotl | NumOp::I64Rotr => (2, ValType::I64, ValType::I64),
        NumOp::F32Abs | NumOp::F32Neg | NumOp::F32Ceil | NumOp::F32Floor | NumOp::F32Trunc | NumOp::F32Nearest | NumOp::F32Sqrt => (1, ValType::F32, ValType::F32),
        NumOp::F32Add | NumOp::F32Sub | NumOp::F32Mul | NumOp::F32Div | NumOp::F32Min | NumOp::F32Max | NumOp::F32Copysign => (2, ValType::F32, ValType::F32),
        NumOp::F64Abs | NumOp::F64Neg | NumOp::F64Ceil | NumOp::F64Floor | NumOp::F64Trunc | NumOp::F64Nearest | NumOp::F64Sqrt => (1, ValType::F64, ValType::F64),
        NumOp::F64Add | NumOp::F64Sub | NumOp::F64Mul | NumOp::F64Div | NumOp::F64Min | NumOp::F64Max | NumOp::F64Copysign => (2, ValType::F64, ValType::F64),
        NumOp::I32WrapI64 => (1, ValType::I64, ValType::I32),
        NumOp::I32TruncF32S | NumOp::I32TruncF32U | NumOp::I32TruncSatF32S | NumOp::I32TruncSatF32U | NumOp::I32ReinterpretF32 => (1, ValType::F32, ValType::I32),
        NumOp::I32TruncF64S | NumOp::I32TruncF64U | NumOp::I32TruncSatF64S | NumOp::I32TruncSatF64U => (1, ValType::F64, ValType::I32),
        NumOp::I64ExtendI32S | NumOp::I64ExtendI32U => (1, ValType::I32, ValType::I64),
        NumOp::I64TruncF32S | NumOp::I64TruncF32U | NumOp::I64TruncSatF32S | NumOp::I64TruncSatF32U => (1, ValType::F32, ValType::I64),
        NumOp::I64TruncF64S | NumOp::I64TruncF64U | NumOp::I64TruncSatF64S | NumOp::I64TruncSatF64U | NumOp::I64ReinterpretF64 => (1, ValType::F64, ValType::I64),
        NumOp::F32ConvertI32S | NumOp::F32ConvertI32U | NumOp::F32ReinterpretI32 => (1, ValType::I32, ValType::F32),
        NumOp::F32ConvertI64S | NumOp::F32ConvertI64U => (1, ValType::I64, ValType::F32),
        NumOp::F32DemoteF64 => (1, ValType::F64, ValType::F32),
        NumOp::F64ConvertI32S | NumOp::F64ConvertI32U => (1, ValType::I32, ValType::F64),
        NumOp::F64ConvertI64S | NumOp::F64ConvertI64U | NumOp::F64ReinterpretI64 => (1, ValType::I64, ValType::F64),
        NumOp::F64PromoteF32 => (1, ValType::F32, ValType::F64),
    }
}

/// The operand count, up to three operand types and the result type of a SIMD operator without immediates.
pub open spec fn simd_type(op: SimdOp) -> (u8, ValType, ValType, ValType, ValType) {
    match op {
        SimdOp::I8x16Splat | SimdOp::I16x8Splat | SimdOp::I32x4Splat => (1, ValType::I32, ValType::V128, ValType::V128, ValType::V128),
        SimdOp::I64x2Splat => (1, ValType::I64, ValType::V128, ValType::V128, ValType::V128),
        SimdOp::F32x4Splat => (1, ValType::F32, ValType::V128, ValType::V128, ValType::V128),
        SimdOp::F64x2Splat => (1, ValType::F64, ValType::V128, ValType::V128, ValType::V128),
        SimdOp::V128AnyTrue | SimdOp::I8x16AllTrue | SimdOp::I8x16Bitmask | SimdOp::I16x8AllTrue | SimdOp::I16x8Bitmask | SimdOp::I32x4AllTrue | SimdOp::I32x4Bitmask | SimdOp::I64x2AllTrue | SimdOp::I64x2Bitmask => (1, ValType::V128, ValType::V128, ValType::V128, ValType::I32),
        SimdOp::V128Bitselect => (3, ValType::V128, ValType::V128, ValType::V128, ValType::V128),
        SimdOp::I8x16Shl | SimdOp::I8x16ShrS | SimdOp::I8x16ShrU | SimdOp::I16x8Shl | SimdOp::I16x8ShrS | SimdOp::I16x8ShrU | SimdOp::I32x4Shl | SimdOp::I32x4ShrS | SimdOp::I32x4ShrU | SimdOp::I64x2Shl | SimdOp::I64x2ShrS | SimdOp::I64x2ShrU => (2, ValType::V128, ValType::I32, ValType::V128, ValType::V128),
        SimdOp::V128Not | SimdOp::F32x4DemoteF64x2Zero | SimdOp::F64x2PromoteLowF32x4 | SimdOp::I8x16Abs | SimdOp::I8x16Neg | SimdOp::I8x16Popcnt | SimdOp::F32x4Ceil | SimdOp::F32x4Floor | SimdOp::F32x4Trunc | SimdOp::F32x4Nearest | SimdOp::F64x2Ceil | SimdOp::F64x2Floor | SimdOp::F64x2Trunc | SimdOp::F64x2Nearest | SimdOp::I16x8ExtaddPairwiseI8x16S | SimdOp::I16x8ExtaddPairwiseI8x16U | SimdOp::I32x4ExtaddPairwiseI16x8S | SimdOp::I32x4ExtaddPairwiseI16x8U | SimdOp::I16x8Abs | SimdOp::I16x8Neg | SimdOp::I16x8ExtendLowI8x16S | SimdOp::I16x8ExtendHighI8x16S | SimdOp::I16x8ExtendLowI8x16U | SimdOp::I16x8ExtendHighI8x16U | SimdOp::I32x4Abs | SimdOp::I32x4Neg | SimdOp::I32x4ExtendLowI16x8S | SimdOp::I32x4ExtendHighI16x8S | SimdOp::I32x4ExtendLowI16x8U | SimdOp::I32x4ExtendHighI16x8U | SimdOp::I64x2Abs | SimdOp::I64x2Neg | SimdOp::I64x2ExtendLowI32x4S | SimdOp::I64x2ExtendHighI32x4S | SimdOp::I64x2ExtendLowI32x4U | SimdOp::I64x2ExtendHighI32x4U | SimdOp::F32x4Abs | SimdOp::F32x4Neg | SimdOp::F32x4Sqrt | SimdOp::F64x2Abs | SimdOp::F64x2Neg | SimdOp::F64x2Sqrt | SimdOp::I32x4TruncSatF32x4S | SimdOp::I32x4TruncSatF32x4U | SimdOp::F32x4ConvertI32x4S | SimdOp::F32x4ConvertI32x4U | SimdOp::I32x4TruncSatF64x2SZero | SimdOp::I32x4TruncSatF64x2UZero | SimdOp::F64x2ConvertLowI32x4S | SimdOp::F64x2ConvertLowI32x4U => (1, ValType::V128, ValType::V128, ValType::V128, ValType::V128),
        _ => (2, ValType::V128, ValType::V128, ValType::V128, ValType::V128),
    }
}

/// The natural alignment exponent and result type of a scalar load.
pub open spec fn load_type(op: LoadOp) -> (u32, ValType) {
    match op {
        LoadOp::I32 => (2, ValType::I32),
        LoadOp::I64 => (3, ValType::I64),
        LoadOp::F32 => (2, ValType::F32),
        LoadOp::F64 => (3, ValType::F64),
        LoadOp::I32L8S | LoadOp::I32L8U => (0, ValType::I32),
        LoadOp::I32L16S | LoadOp::I32L16U => (1, ValType::I32),
        LoadOp::I64L8S | LoadOp::I64L8U => (0, ValType::I64),
        LoadOp::I64L16S | LoadOp::I64L16U => (1, ValType::I64),
        LoadOp::I64L32S | LoadOp::I64L32U => (2, ValType::I64),
    }
}

/// The natural alignment exponent and operand type of a scalar store.
pub open spec fn store_type(op: StoreOp) -> (u32, ValType) {
    match op {
        StoreOp::I32 => (2, ValType::I32),
        StoreOp::I64 => (3, ValType::I64),
        StoreOp::F32 => (2, ValType::F32),
        StoreOp::F64 => (3, ValType::F64),
        StoreOp::I32S8 => (0, ValType::I32),
        StoreOp::I32S16 => (1, ValType::I32),
        StoreOp::I64S8 => (0, ValType::I64),
        StoreOp::I64S16 => (1, ValType::I64),
        StoreOp::I64S32 => (2, ValType::I64),
    }
}

/// The lane count, scalar type, and whether a lane operator replaces a lane.
pub open spec fn lane_type(op: SimdLaneOp) -> (u32, ValType, bool) {
    match op {
        SimdLaneOp::I8x16ExtractLaneS | SimdLaneOp::I8x16ExtractLaneU => (16, ValType::I32, false),
        SimdLaneOp::I8x16ReplaceLane => (16, ValType::I32, true),
        SimdLaneOp::I16x8ExtractLaneS | SimdLaneOp::I16x8ExtractLaneU => (8, ValType::I32, false),
        SimdLaneOp::I16x8ReplaceLane => (8, ValType::I32, true),
        SimdLaneOp::I32x4ExtractLane => (4, ValType::I32, false),
        SimdLaneOp::I32x4ReplaceLane => (4, ValType::I32, true),
        SimdLaneOp::I64x2ExtractLane => (2, ValType::I64, false),
        SimdLaneOp::I64x2ReplaceLane => (2, ValType::I64, true),
        SimdLaneOp::F32x4ExtractLane => (4, ValType::F32, false),
        SimdLaneOp::F32x4ReplaceLane => (4, ValType::F32, true),
        SimdLaneOp::F64x2ExtractLane => (2, ValType::F64, false),
        SimdLaneOp::F64x2ReplaceLane => (2, ValType::F64, true),
    }
}

/// The natural alignment exponent, lane count (0 when there is no lane) and stack shape (0: store, 1: lane load, 2: load) of a SIMD memory operator.
pub open spec fn simd_mem_type(op: SimdMemOp) -> (u32, u32, u8) {
    match op {
        SimdMemOp::Load => (4, 0, 2),
        SimdMemOp::Store => (4, 0, 0),
        SimdMemOp::Load8x8S | SimdMemOp::Load8x8U | SimdMemOp::Load16x4S | SimdMemOp::Load16x4U
        | SimdMemOp::Load32x2S | SimdMemOp::Load32x2U => (3, 0, 2),
        SimdMemOp::Load8Splat => (0, 0, 2),
        SimdMemOp::Load16Splat => (1, 0, 2),
        SimdMemOp::Load32Splat => (2, 0, 2),
        SimdMemOp::Load64Splat => (3, 0, 2),
        SimdMemOp::Load32Zero => (2, 0, 2),
        SimdMemOp::Load64Zero => (3, 0, 2),
        SimdMemOp::Load8Lane => (0, 16, 1),
        SimdMemOp::Load16Lane => (1, 8, 1),
        SimdMemOp::Load32Lane => (2, 4, 1),
        SimdMemOp::Load64Lane => (3, 2, 1),
        SimdMemOp::Store8Lane => (0, 16, 0),
        SimdMemOp::Store16Lane => (1, 8, 0),
        SimdMemOp::Store32Lane => (2, 4, 0),
        SimdMemOp::Store64Lane => (3, 2, 0),
    }
}


/// A scalar load or store is accepted exactly when its alignment is at most
/// the natural one: `2^align` may not exceed the number of bytes it moves
/// in memory, and a load pushes a value of the type it reads.
pub proof fn lemma_memarg_natural_alignment(env: TypeEnv, op: LoadOp, sop: StoreOp, align: u32, offset: u32, raw: u128)
    requires
        env.mems.len() > 0,
    ensures
        !(memory_sig(env, Instr::Load { op, align, offset }) is Invalid) <==> pow2(align as nat) <= crate::exec::load_width(op),
        !(memory_sig(env, Instr::Store { op: sop, align, offset }) is Invalid) <==> pow2(align as nat) <= crate::exec::store_width(sop),
        memory_sig(env, Instr::Load { op, align, offset }) matches Sig::Of(_, outs) ==> outs == seq![
            crate::values::value_type(crate::exec::loaded(op, raw)),
        ],
{
    lemma2_to64();
    if align >= 4 {
        lemma_pow2_strictly_increases(3, align as nat);
    }
}


/// A v128 memory instruction is accepted exactly when `2^align` does not
/// exceed the bytes it moves and, for a lane access, its lane exists in a
/// vector of lanes of that many bytes; a store pushes nothing and every
/// other access pushes a v128.
pub proof fn lemma_simd_memarg_natural_alignment(env: TypeEnv, op: SimdMemOp, align: u32, offset: u32, lane: u8)
    requires
        env.mems.len() > 0,
    ensures
        !(numeric_sig(env, Instr::SimdMem { op, align, offset, lane }) is Invalid) <==> (pow2(align as nat)
            <= crate::simd::simd_mem_bytes(op) && (crate::simd::simd_mem_lane(op) ==> lane * crate::simd::simd_mem_bytes(op) < 16)),
        numeric_sig(env, Instr::SimdMem { op, align, offset, lane }) matches Sig::Of(_, outs) ==> (outs.len() == 0
            <==> crate::simd::simd_mem_stores(op)) && (outs.len() != 0 ==> outs == seq![ValType::V128]),
{
    lemma2_to64();
    if align >= 5 {
        lemma_pow2_strictly_increases(4, align as nat);
    }
}

} // verus!
