//! The interpreter: an iterative machine (explicit frame stack, no native
//! recursion) so call-stack exhaustion is a deterministic trap.
//!
//! The machine runs until it needs something it cannot compute itself:
//! the result of a host function or of a floating-point operator. It then
//! hands an `Event` to the embedder, which answers with `resume`.
use vstd::prelude::*;
use vstd::arithmetic::power2::pow2;
use std::rc::Rc;
use crate::bytes::{le_seq, le_value, read_le, write_le, written, lemma_le_roundtrip, lemma_written_read};
use crate::error::Trap;
use crate::module::{BlockType, Code, Instr, LoadOp, NumOp, SimdOp, StoreOp};
use crate::numeric::{eval_int, float_op, needs_float, int_num_result, operands_fit, IntTrap, is_binary_exec, operand_type_exec};
use crate::store::{mem_bytes, FuncInst, GlobalInst, MemInst, Store, TableInst, MAX_PAGES, PAGE_SIZE, TABLE_IMPL_LIMIT};
use crate::types::{FuncType, ValType};
use crate::values::{Value, default_value, null_value, value_type};

verus! {

pub const MAX_CALL_DEPTH: usize = 2000;

pub const MAX_VALUE_STACK: usize = 4000000;

pub struct Ctrl {
    /// Branch target pc: for loops, the loop instruction; for blocks/ifs,
    /// one past the matching End.
    pub target: usize,
    /// Values transferred on branch (loop: params, block/if: results).
    pub arity: usize,
    /// Value-stack height at block entry (block arguments popped).
    pub height: usize,
}

pub struct Frame {
    pub code: Rc<Code>,
    pub inst: usize,
    pub locals: Vec<Value>,
    pub pc: usize,
    /// Value-stack base for this frame (arguments already consumed).
    pub base: usize,
    pub ctrl_base: usize,
    pub results: usize,
}

/// What the machine reports when it stops.
pub enum Event {
    /// The invocation returned these values.
    Done(Vec<Value>),
    /// The invocation trapped.
    Trapped(Trap),
    /// Host function `id` must be called with `args`; resume with its results.
    Host { id: usize, args: Vec<Value> },
    /// A floating-point operator must be evaluated; resume with its result.
    Float { op: NumOp, args: Vec<Value> },
    /// A floating-point SIMD operator must be evaluated; resume with its result.
    SimdFloat { op: SimdOp, args: Vec<Value> },
    /// The step budget ran out; run again to continue.
    Paused,
}

/// How execution continues after one instruction.
pub enum Flow {
    Next,
    Jump(usize),
    Returned,
    Yield(Event),
}

pub struct Machine {
    pub stack: Vec<Value>,
    /// Suspended callers; `top` is the running frame when `active`.
    pub callers: Vec<Frame>,
    pub top: Frame,
    pub active: bool,
    pub ctrls: Vec<Ctrl>,
    /// A host call to report before anything else (direct host invocation).
    pub queued: Option<(usize, Vec<Value>)>,
}

/// Trusted: `Rc::clone` returns a handle to the same allocation, so the
/// shared code is the same value.
#[verifier::external_body]
fn share(c: &Rc<Code>) -> (r: Rc<Code>)
    ensures
        r == *c,
{
    Rc::clone(c)
}

pub fn trap(msg: &str) -> (t: Trap)
    ensures
        t.msg@ == msg@,
{
    Trap::new(msg)
}

/// The trap for a state that validation rules out (an operand of the wrong
/// type, a missing frame or an index past a store vector).
pub fn fault() -> (t: Trap)
    ensures
        t.msg@ == "invalid machine state"@,
{
    Trap::new("invalid machine state")
}

/// The values of `s` after keeping its top `arity` values above height `h`.
pub open spec fn unwind(s: Seq<Value>, h: int, arity: int) -> Seq<Value> {
    let cut = s.len() - arity;
    s.take(if h < cut { h } else { cut }) + s.skip(cut)
}

/// The little-endian read of `w` bytes at `at`, when it is in bounds.
pub open spec fn load_at(data: Seq<u8>, at: int, w: int) -> Option<nat> {
    if at + w <= data.len() { Some(le_value(data.subrange(at, at + w))) } else { None }
}


/// The binary floating-point operators.
pub open spec fn float_binop(op: NumOp) -> bool {
    match op {
        NumOp::F32Eq | NumOp::F32Ne | NumOp::F32Lt | NumOp::F32Gt | NumOp::F32Le | NumOp::F32Ge
        | NumOp::F64Eq | NumOp::F64Ne | NumOp::F64Lt | NumOp::F64Gt | NumOp::F64Le | NumOp::F64Ge
        | NumOp::F32Add | NumOp::F32Sub | NumOp::F32Mul | NumOp::F32Div | NumOp::F32Min | NumOp::F32Max
        | NumOp::F64Add | NumOp::F64Sub | NumOp::F64Mul | NumOp::F64Div | NumOp::F64Min | NumOp::F64Max => true,
        _ => false,
    }
}

/// The number of operands of a numeric operator.
pub open spec fn num_arity(op: NumOp) -> nat {
    if crate::numeric::is_binary(op) || float_binop(op) { 2 } else { 1 }
}

pub fn num_arity_exec(op: NumOp) -> (r: usize)
    ensures
        r == num_arity(op),
{
    let fb = match op {
        NumOp::F32Eq | NumOp::F32Ne | NumOp::F32Lt | NumOp::F32Gt | NumOp::F32Le | NumOp::F32Ge
        | NumOp::F64Eq | NumOp::F64Ne | NumOp::F64Lt | NumOp::F64Gt | NumOp::F64Le | NumOp::F64Ge
        | NumOp::F32Add | NumOp::F32Sub | NumOp::F32Mul | NumOp::F32Div | NumOp::F32Min | NumOp::F32Max
        | NumOp::F64Add | NumOp::F64Sub | NumOp::F64Mul | NumOp::F64Div | NumOp::F64Min | NumOp::F64Max => true,
        _ => false,
    };
    if is_binary_exec(op) || fb { 2 } else { 1 }
}

/// The trap message of an integer trap.
pub open spec fn int_trap_text(t: IntTrap) -> Seq<char> {
    match t {
        IntTrap::DivideByZero => "integer divide by zero"@,
        IntTrap::Overflow => "integer overflow"@,
    }
}

pub fn int_trap(t: IntTrap) -> (r: Trap)
    ensures
        r.msg@ == int_trap_text(t),
{
    match t {
        IntTrap::DivideByZero => trap("integer divide by zero"),
        IntTrap::Overflow => trap("integer overflow"),
    }
}

/// A copy of `src[s..s+n]`.
pub fn copy_range<T: Copy>(src: &Vec<T>, s: usize, n: usize) -> (r: Vec<T>)
    requires
        s + n <= src@.len(),
    ensures
        r@ == src@.subrange(s as int, s + n),
{
    let mut out: Vec<T> = Vec::new();
    let mut k: usize = 0;
    let len = src.len();
    while k < n
        invariant
            k <= n,
            len == src@.len(),
            s + n <= src@.len(),
            out@ == src@.subrange(s as int, s + k),
        decreases n - k,
    {
        out.push(src[s + k]);
        k = k + 1;
        assert(out@ =~= src@.subrange(s as int, s + k));
    }
    out
}

/// `dst` with `src` written at `d`.
pub open spec fn overwrite<T>(dst: Seq<T>, d: int, src: Seq<T>) -> Seq<T> {
    dst.take(d) + src + dst.skip(d + src.len())
}

/// Writes `src` into `dst` at `d`.
pub fn write_range<T: Copy>(dst: &mut Vec<T>, d: usize, src: &Vec<T>)
    requires
        d + src@.len() <= old(dst)@.len(),
    ensures
        final(dst)@ == overwrite(old(dst)@, d as int, src@),
{
    let ghost orig = dst@;
    let mut k: usize = 0;
    let dl = dst.len();
    while k < src.len()
        invariant
            k <= src@.len(),
            dl == orig.len(),
            d + src@.len() <= orig.len(),
            dst@.len() == orig.len(),
            forall|i: int| 0 <= i < orig.len() && !(d <= i < d + k) ==> #[trigger] dst@[i] == orig[i],
            forall|i: int| d <= i < d + k ==> #[trigger] dst@[i] == src@[i - d],
        decreases src@.len() - k,
    {
        dst.set(d + k, src[k]);
        k = k + 1;
    }
    assert(dst@ =~= overwrite(orig, d as int, src@));
}

/// `dst` with `n` copies of `v` written at `d`.
pub open spec fn filled<T>(dst: Seq<T>, d: int, n: int, v: T) -> Seq<T> {
    overwrite(dst, d, Seq::new(n as nat, |i: int| v))
}

/// Writes `n` copies of `v` into `dst` at `d`.
pub fn fill_range<T: Copy>(dst: &mut Vec<T>, d: usize, n: usize, v: T)
    requires
        d + n <= old(dst)@.len(),
    ensures
        final(dst)@ == filled(old(dst)@, d as int, n as int, v),
{
    let ghost orig = dst@;
    let mut k: usize = 0;
    let dl = dst.len();
    while k < n
        invariant
            k <= n,
            dl == orig.len(),
            d + n <= orig.len(),
            dst@.len() == orig.len(),
            forall|i: int| 0 <= i < orig.len() && !(d <= i < d + k) ==> #[trigger] dst@[i] == orig[i],
            forall|i: int| d <= i < d + k ==> #[trigger] dst@[i] == v,
        decreases n - k,
    {
        dst.set(d + k, v);
        k = k + 1;
    }
    assert(dst@ =~= filled(orig, d as int, n as int, v));
}


/// Bytes read by a load operator.
pub open spec fn load_width(op: LoadOp) -> nat {
    match op {
        LoadOp::I32 | LoadOp::F32 | LoadOp::I64L32S | LoadOp::I64L32U => 4,
        LoadOp::I64 | LoadOp::F64 => 8,
        LoadOp::I32L8S | LoadOp::I32L8U | LoadOp::I64L8S | LoadOp::I64L8U => 1,
        LoadOp::I32L16S | LoadOp::I32L16U | LoadOp::I64L16S | LoadOp::I64L16U => 2,
    }
}

/// The value a load operator produces from the little-endian number it read.
pub open spec fn loaded(op: LoadOp, raw: u128) -> Value {
    match op {
        LoadOp::I32 => Value::I32(raw as u32),
        LoadOp::I64 => Value::I64(raw as u64),
        LoadOp::F32 => Value::F32(raw as u32),
        LoadOp::F64 => Value::F64(raw as u64),
        LoadOp::I32L8S => Value::I32((((raw as u8) as i8) as i32) as u32),
        LoadOp::I32L8U => Value::I32((raw as u8) as u32),
        LoadOp::I32L16S => Value::I32((((raw as u16) as i16) as i32) as u32),
        LoadOp::I32L16U => Value::I32((raw as u16) as u32),
        LoadOp::I64L8S => Value::I64((((raw as u8) as i8) as i64) as u64),
        LoadOp::I64L8U => Value::I64((raw as u8) as u64),
        LoadOp::I64L16S => Value::I64((((raw as u16) as i16) as i64) as u64),
        LoadOp::I64L16U => Value::I64((raw as u16) as u64),
        LoadOp::I64L32S => Value::I64((((raw as u32) as i32) as i64) as u64),
        LoadOp::I64L32U => Value::I64((raw as u32) as u64),
    }
}

/// The narrow loads read 1, 2 or 4 bytes and extend the number they read:
/// with `lo` the low `8 * width` bits of the little-endian number read,
/// an unsigned (`_u`) load yields `lo`, and a signed (`_s`) load yields
/// `lo` when its top bit is clear and `lo - 2^(8 * width)` (as a 32- or
/// 64-bit two's complement number) when it is set. So the two differ
/// exactly when the top bit read is set.
pub proof fn lemma_narrow_loads_extend(raw: u128)
    ensures
        load_width(LoadOp::I32L8S) == 1 && load_width(LoadOp::I32L8U) == 1,
        load_width(LoadOp::I32L16S) == 2 && load_width(LoadOp::I32L16U) == 2,
        load_width(LoadOp::I64L8S) == 1 && load_width(LoadOp::I64L8U) == 1,
        load_width(LoadOp::I64L16S) == 2 && load_width(LoadOp::I64L16U) == 2,
        load_width(LoadOp::I64L32S) == 4 && load_width(LoadOp::I64L32U) == 4,
        loaded(LoadOp::I32L8U, raw) == Value::I32((raw % 0x100) as u32),
        loaded(LoadOp::I32L8S, raw) == Value::I32(
            if raw % 0x100 >= 0x80 { (raw % 0x100 + 0xffff_ff00) as u32 } else { (raw % 0x100) as u32 },
        ),
        loaded(LoadOp::I32L16U, raw) == Value::I32((raw % 0x1_0000) as u32),
        loaded(LoadOp::I32L16S, raw) == Value::I32(
            if raw % 0x1_0000 >= 0x8000 { (raw % 0x1_0000 + 0xffff_0000) as u32 } else { (raw % 0x1_0000) as u32 },
        ),
        loaded(LoadOp::I64L8U, raw) == Value::I64((raw % 0x100) as u64),
        loaded(LoadOp::I64L8S, raw) == Value::I64(
            if raw % 0x100 >= 0x80 { (raw % 0x100 + 0xffff_ffff_ffff_ff00) as u64 } else { (raw % 0x100) as u64 },
        ),
        loaded(LoadOp::I64L16U, raw) == Value::I64((raw % 0x1_0000) as u64),
        loaded(LoadOp::I64L16S, raw) == Value::I64(
            if raw % 0x1_0000 >= 0x8000 {
                (raw % 0x1_0000 + 0xffff_ffff_ffff_0000) as u64
            } else {
                (raw % 0x1_0000) as u64
            },
        ),
        loaded(LoadOp::I64L32U, raw) == Value::I64((raw % 0x1_0000_0000) as u64),
        loaded(LoadOp::I64L32S, raw) == Value::I64(
            if raw % 0x1_0000_0000 >= 0x8000_0000 {
                (raw % 0x1_0000_0000 + 0xffff_ffff_0000_0000) as u64
            } else {
                (raw % 0x1_0000_0000) as u64
            },
        ),
        (loaded(LoadOp::I32L16S, raw) != loaded(LoadOp::I32L16U, raw)) <==> raw % 0x1_0000 >= 0x8000,
        (loaded(LoadOp::I32L8S, raw) != loaded(LoadOp::I32L8U, raw)) <==> raw % 0x100 >= 0x80,
        (loaded(LoadOp::I64L8S, raw) != loaded(LoadOp::I64L8U, raw)) <==> raw % 0x100 >= 0x80,
        (loaded(LoadOp::I64L16S, raw) != loaded(LoadOp::I64L16U, raw)) <==> raw % 0x1_0000 >= 0x8000,
        (loaded(LoadOp::I64L32S, raw) != loaded(LoadOp::I64L32U, raw)) <==> raw % 0x1_0000_0000 >= 0x8000_0000,
{
    assert((raw as u8) as u32 == (raw % 0x100) as u32) by (bit_vector);
    assert((((raw as u8) as i8) as i32) as u32 == if raw % 0x100 >= 0x80 {
        (raw % 0x100 + 0xffff_ff00) as u32
    } else {
        (raw % 0x100) as u32
    }) by (bit_vector);
    assert((raw as u16) as u32 == (raw % 0x1_0000) as u32) by (bit_vector);
    assert((((raw as u16) as i16) as i32) as u32 == if raw % 0x1_0000 >= 0x8000 {
        (raw % 0x1_0000 + 0xffff_0000) as u32
    } else {
        (raw % 0x1_0000) as u32
    }) by (bit_vector);
    assert((raw as u8) as u64 == (raw % 0x100) as u64) by (bit_vector);
    assert((((raw as u8) as i8) as i64) as u64 == if raw % 0x100 >= 0x80 {
        (raw % 0x100 + 0xffff_ffff_ffff_ff00) as u64
    } else {
        (raw % 0x100) as u64
    }) by (bit_vector);
    assert((raw as u16) as u64 == (raw % 0x1_0000) as u64) by (bit_vector);
    assert((((raw as u16) as i16) as i64) as u64 == if raw % 0x1_0000 >= 0x8000 {
        (raw % 0x1_0000 + 0xffff_ffff_ffff_0000) as u64
    } else {
        (raw % 0x1_0000) as u64
    }) by (bit_vector);
    assert((raw as u32) as u64 == (raw % 0x1_0000_0000) as u64) by (bit_vector);
    assert((((raw as u32) as i32) as i64) as u64 == if raw % 0x1_0000_0000 >= 0x8000_0000 {
        (raw % 0x1_0000_0000 + 0xffff_ffff_0000_0000) as u64
    } else {
        (raw % 0x1_0000_0000) as u64
    }) by (bit_vector);
}

/// The full-width loads read 4 or 8 bytes and keep every bit they read:
/// the value is the low `8 * width` bits of the little-endian number.
pub proof fn lemma_full_loads_keep_bits(raw: u128)
    ensures
        load_width(LoadOp::I32) == 4 && load_width(LoadOp::F32) == 4,
        load_width(LoadOp::I64) == 8 && load_width(LoadOp::F64) == 8,
        loaded(LoadOp::I32, raw) == Value::I32((raw % 0x1_0000_0000) as u32),
        loaded(LoadOp::F32, raw) == Value::F32((raw % 0x1_0000_0000) as u32),
        loaded(LoadOp::I64, raw) == Value::I64((raw % 0x1_0000_0000_0000_0000) as u64),
        loaded(LoadOp::F64, raw) == Value::F64((raw % 0x1_0000_0000_0000_0000) as u64),
{
    assert(raw as u32 == (raw % 0x1_0000_0000) as u32) by (bit_vector);
    assert(raw as u64 == (raw % 0x1_0000_0000_0000_0000) as u64) by (bit_vector);
}

pub fn load_width_exec(op: LoadOp) -> (r: usize)
    ensures
        r == load_width(op),
{
    match op {
        LoadOp::I32 | LoadOp::F32 | LoadOp::I64L32S | LoadOp::I64L32U => 4,
        LoadOp::I64 | LoadOp::F64 => 8,
        LoadOp::I32L8S | LoadOp::I32L8U | LoadOp::I64L8S | LoadOp::I64L8U => 1,
        LoadOp::I32L16S | LoadOp::I32L16U | LoadOp::I64L16S | LoadOp::I64L16U => 2,
    }
}

pub fn loaded_exec(op: LoadOp, raw: u128) -> (r: Value)
    ensures
        r == loaded(op, raw),
{
    match op {
        LoadOp::I32 => Value::I32(raw as u32),
        LoadOp::I64 => Value::I64(raw as u64),
        LoadOp::F32 => Value::F32(raw as u32),
        LoadOp::F64 => Value::F64(raw as u64),
        LoadOp::I32L8S => Value::I32((((raw as u8) as i8) as i32) as u32),
        LoadOp::I32L8U => Value::I32((raw as u8) as u32),
        LoadOp::I32L16S => Value::I32((((raw as u16) as i16) as i32) as u32),
        LoadOp::I32L16U => Value::I32((raw as u16) as u32),
        LoadOp::I64L8S => Value::I64((((raw as u8) as i8) as i64) as u64),
        LoadOp::I64L8U => Value::I64((raw as u8) as u64),
        LoadOp::I64L16S => Value::I64((((raw as u16) as i16) as i64) as u64),
        LoadOp::I64L16U => Value::I64((raw as u16) as u64),
        LoadOp::I64L32S => Value::I64((((raw as u32) as i32) as i64) as u64),
        LoadOp::I64L32U => Value::I64((raw as u32) as u64),
    }
}

/// Bytes written by a store operator.
pub open spec fn store_width(op: StoreOp) -> nat {
    match op {
        StoreOp::I32 | StoreOp::F32 | StoreOp::I64S32 => 4,
        StoreOp::I64 | StoreOp::F64 => 8,
        StoreOp::I32S8 | StoreOp::I64S8 => 1,
        StoreOp::I32S16 | StoreOp::I64S16 => 2,
    }
}

/// The operand type of a store operator.
pub open spec fn store_operand(op: StoreOp) -> ValType {
    match op {
        StoreOp::I32 | StoreOp::I32S8 | StoreOp::I32S16 => ValType::I32,
        StoreOp::F32 => ValType::F32,
        StoreOp::F64 => ValType::F64,
        _ => ValType::I64,
    }
}

/// The bits of a stored value, as a number.
pub open spec fn value_bits(v: Value) -> u128 {
    match v {
        Value::I32(x) => x as u128,
        Value::I64(x) => x as u128,
        Value::F32(x) => x as u128,
        Value::F64(x) => x as u128,
        Value::V128(x) => x,
        _ => 0,
    }
}

pub fn store_width_exec(op: StoreOp) -> (r: usize)
    ensures
        r == store_width(op),
{
    match op {
        StoreOp::I32 | StoreOp::F32 | StoreOp::I64S32 => 4,
        StoreOp::I64 | StoreOp::F64 => 8,
        StoreOp::I32S8 | StoreOp::I64S8 => 1,
        StoreOp::I32S16 | StoreOp::I64S16 => 2,
    }
}

pub fn store_operand_exec(op: StoreOp) -> (r: ValType)
    ensures
        r == store_operand(op),
{
    match op {
        StoreOp::I32 | StoreOp::I32S8 | StoreOp::I32S16 => ValType::I32,
        StoreOp::F32 => ValType::F32,
        StoreOp::F64 => ValType::F64,
        _ => ValType::I64,
    }
}

pub fn value_bits_exec(v: Value) -> (r: u128)
    ensures
        r == value_bits(v),
{
    match v {
        Value::I32(x) => x as u128,
        Value::I64(x) => x as u128,
        Value::F32(x) => x as u128,
        Value::F64(x) => x as u128,
        Value::V128(x) => x,
        _ => 0,
    }
}

/// The size in pages of a memory holding `len` bytes.
pub open spec fn pages_of(len: nat) -> nat {
    len / 65536
}

/// Grows memory `a` by `n` pages: the old size in pages, or `u32::MAX`
/// (memory unchanged) when the result would pass the memory's maximum,
/// 65536 pages, or the addressable range.
pub fn grow_memory(store: &mut Store, a: usize, n: u32) -> (r: u32)
    requires
        a < old(store).mems@.len(),
        old(store).mems@[a as int].data@.len() <= 65536 * 65536,
    ensures
        final(store).mems@.len() == old(store).mems@.len(),
        final(store).funcs == old(store).funcs,
        final(store).instances == old(store).instances,
        final(store).tables == old(store).tables,
        final(store).globals == old(store).globals,
        forall|j: int| 0 <= j < old(store).mems@.len() && j != a ==> #[trigger] final(store).mems@[j] == old(store).mems@[j],
        memory_grow_outcome(old(store).mems@[a as int], final(store).mems@[a as int], n, r),
{
    let len = store.mems[a].data.len();
    let old_pages: u32 = (len / PAGE_SIZE) as u32;
    let new: u64 = old_pages as u64 + n as u64;
    let cap: u32 = match store.mems[a].ty.limits.max {
        Some(m) => if m < MAX_PAGES { m } else { MAX_PAGES },
        None => MAX_PAGES,
    };
    if new > cap as u64 {
        return u32::MAX;
    }
    match mem_bytes(new as u32) {
        Some(bytes) => {
            if bytes < len {
                return u32::MAX;
            }
            store.mems[a].data.resize(bytes, 0u8);
            assert forall|j: int| len <= j < bytes implies #[trigger] store.mems@[a as int].data@[j] == 0u8 by {
                assert(cloned::<u8>(0u8, store.mems@[a as int].data@[j]));
            }
            old_pages
        },
        None => u32::MAX,
    }
}


/// Grows table `a` by `n` entries of `v`: the old size, or `u32::MAX`
/// (table unchanged) when the result would pass the table's maximum or
/// the implementation limit.
pub fn grow_table(store: &mut Store, a: usize, n: u32, v: Value) -> (r: u32)
    requires
        a < old(store).tables@.len(),
    ensures
        final(store).tables@.len() == old(store).tables@.len(),
        final(store).funcs == old(store).funcs,
        final(store).instances == old(store).instances,
        final(store).mems == old(store).mems,
        final(store).globals == old(store).globals,
        forall|j: int| 0 <= j < old(store).tables@.len() && j != a ==> #[trigger] final(store).tables@[j] == old(store).tables@[j],
        final(store).tables@[a as int].ty == old(store).tables@[a as int].ty,
        table_grow_outcome(old(store).tables@[a as int], final(store).tables@[a as int], n, v, r),
{
    let old_len = store.tables[a].elems.len();
    let max: u64 = match store.tables[a].ty.limits.max {
        Some(m) => m as u64,
        None => u32::MAX as u64,
    };
    if old_len as u64 > TABLE_IMPL_LIMIT {
        return u32::MAX;
    }
    let new: u64 = old_len as u64 + n as u64;
    // Growth beyond the implementation limit fails with -1, which the
    // spec explicitly permits for table.grow.
    if new > max || new > TABLE_IMPL_LIMIT {
        return u32::MAX;
    }
    store.tables[a].elems.resize(new as usize, v);
    assert(final(store).tables@[a as int].elems@ =~= old(store).tables@[a as int].elems@ + Seq::new(n as nat, |i: int| v));
    old_len as u32
}


/// Starts an invocation of the function at `func_addr` with `args`: a
/// module function gets its frame, a host function is reported by the
/// first `run`.
pub fn invoke(store: &Store, func_addr: usize, args: &[Value]) -> (r: Result<Machine, Trap>)
    ensures
        r is Ok ==> r->Ok_0.wf(),
        (r is Ok && func_addr < store.funcs@.len() && store.funcs@[func_addr as int] is Wasm) ==> r->Ok_0.depth() == 1,
        func_addr >= store.funcs@.len() ==> r is Err,
        (func_addr < store.funcs@.len() && store.funcs@[func_addr as int] is Wasm) ==> (r is Ok <==> ({
            let f = store.funcs@[func_addr as int];
            f->Wasm_ty.params@.len() <= args@.len() && args@.len() + f->Wasm_code.locals@.len() <= MAX_VALUE_STACK
        })),
        (r is Ok && func_addr < store.funcs@.len()) ==> (store.funcs@[func_addr as int] matches FuncInst::Wasm { ty, inst, code }
            ==> started(r->Ok_0, args@, ty, inst, code)),
        (func_addr < store.funcs@.len() && store.funcs@[func_addr as int] is Wasm) ==> (r matches Err(t) ==> t.msg@
            == if store.funcs@[func_addr as int]->Wasm_ty.params@.len() <= args@.len() {
                "call stack exhausted"@
            } else {
                "invalid machine state"@
            }),
        (func_addr < store.funcs@.len() && store.funcs@[func_addr as int] is Host) ==> (r is Ok && r->Ok_0.depth() == 0
            && r->Ok_0.queued is Some && ({
                let q = r->Ok_0.queued->0;
                q.0 == store.funcs@[func_addr as int]->id && q.1@ == args@
            })),
{
    if func_addr >= store.funcs.len() {
        return Err(fault());
    }
    match &store.funcs[func_addr] {
        FuncInst::Host { id, .. } => {
            let mut m = Machine::new(&[]);
            let held = Machine::new(args);
            m.queued = Some((*id, held.stack));
            Ok(m)
        },
        FuncInst::Wasm { .. } => {
            let mut m = Machine::new(args);
            let ghost m0 = m;
            m.push_frame(store, func_addr)?;
            proof {
                assert(m0.ctrls@.push(m.ctrls@.last()) =~= seq![m.ctrls@.last()]);
            }
            Ok(m)
        },
    }
}



/// What a load instruction does: pops the address, pushes the value read
/// at it plus `offset`, or traps when that is out of bounds.
pub open spec fn load_effect(store: Store, m0: Machine, m1: Machine, op: LoadOp, offset: u32, r: Result<Flow, Trap>) -> bool {
    let s = m0.stack@;
    let i = m0.top.inst as int;
    let ready = s.len() > 0 && s.last() is I32 && mem0_ok(store, i);
    let got = load_at(store.mems@[mem0(store, i)].data@, s.last()->I32_0 + offset, load_width(op) as int);
    &&& r is Ok ==> ready && got is Some && m1.stack@ == s.drop_last().push(loaded(op, got->Some_0 as u128))
    &&& (ready && got is None) ==> (r is Err && r->Err_0.msg@ == "out of bounds memory access"@)
    &&& (ready && got is Some) ==> r is Ok
}

/// What a store instruction does: pops the value and the address, writes
/// the value's low bytes at the address plus `offset`, or traps when that
/// is out of bounds.
pub open spec fn store_effect(s0: Store, s1: Store, m0: Machine, m1: Machine, op: StoreOp, offset: u32, r: Result<Flow, Trap>) -> bool {
    let s = m0.stack@;
    let n = s.len();
    let i = m0.top.inst as int;
    let a = mem0(s0, i);
    let ready = n >= 2 && value_type(s[n - 1]) == store_operand(op) && s[n - 2] is I32 && mem0_ok(s0, i);
    let at = s[n - 2]->I32_0 + offset;
    let w = store_width(op);
    &&& r is Ok ==> ready && m1.stack@ == s.take(n - 2) && at + w <= s0.mems@[a].data@.len()
        && s1.mems@[a].data@ == written(s0.mems@[a].data@, at, le_seq(value_bits(s[n - 1]) as nat, w))
    &&& (ready && at + w > s0.mems@[a].data@.len()) ==> (r is Err && r->Err_0.msg@ == "out of bounds memory access"@)
    &&& (ready && at + w <= s0.mems@[a].data@.len()) ==> r is Ok
}

/// What a numeric instruction does: an integer or bit-pattern operator
/// replaces its operands by its result or traps; a floating-point one
/// hands its operands to the embedder.
pub open spec fn num_effect(m0: Machine, m1: Machine, op: NumOp, r: Result<Flow, Trap>) -> bool {
    let s = m0.stack@;
    let k = num_arity(op);
    let a = s[s.len() - k];
    let b = s[s.len() - 1];
    &&& float_op(op) && k <= s.len() ==> (r matches Ok(Flow::Yield(Event::Float { op: o, args })) && o == op
        && args@ == s.skip(s.len() - k) && m1.stack@ == s.take(s.len() - k))
    &&& !float_op(op) && k <= s.len() && operands_fit(op, a, b) ==> match int_num_result(op, a, b) {
        Ok(v) => r == Ok::<Flow, Trap>(Flow::Next) && m1.stack@ == s.take(s.len() - k).push(v),
        Err(t) => r is Err && r->Err_0.msg@ == int_trap_text(t),
    }
}

/// Whether `r` and table `t1` are what growing table `t0` by `n` copies of
/// `v` gives: the old size and the longer table, or `u32::MAX` and the
/// table unchanged where the result would pass its maximum or the
/// implementation limit.
pub open spec fn table_grow_outcome(t0: TableInst, t1: TableInst, n: u32, v: Value, r: u32) -> bool {
    let old_len = t0.elems@.len();
    let max: int = match t0.ty.limits.max {
        Some(m) => m as int,
        None => u32::MAX as int,
    };
    let grown = old_len + n <= max && old_len + n <= TABLE_IMPL_LIMIT;
    &&& grown ==> r == old_len && t1.elems@ == t0.elems@ + Seq::new(n as nat, |i: int| v) && t1.ty == t0.ty
    &&& !grown ==> r == u32::MAX && t1 == t0
}

/// What a table or element-segment instruction does, from machine `m0`
/// and store `st0` to `m1` and `st1`: table and segment indices are those
/// of the running instance; accesses past a table's or segment's end trap.
pub open spec fn table_effect(
    st0: Store,
    st1: Store,
    m0: Machine,
    m1: Machine,
    instr: Instr,
    r: Result<Flow, Trap>,
) -> bool {
    let s = m0.stack@;
    let k = s.len() as int;
    let inst = m0.top.inst as int;
    let next = Ok::<Flow, Trap>(Flow::Next);
    let oob = r is Err && r->Err_0.msg@ == "out of bounds table access"@;
    match instr {
        Instr::TableGet { table } => {
            let a = table_addr(st0, inst, table);
            let elems = st0.tables@[a.unwrap()].elems@;
            let ops = a is Some && k >= 1 && s[k - 1] is I32;
            let i = s[k - 1]->I32_0;
            &&& ops ==> (r is Ok <==> i < elems.len()) && (r is Err ==> oob)
            &&& r is Ok ==> ops && r == next && m1.stack@ == s.drop_last().push(elems[i as int])
        },
        Instr::TableSet { table } => {
            let a = table_addr(st0, inst, table);
            let elems = st0.tables@[a.unwrap()].elems@;
            let ops = a is Some && k >= 2 && s[k - 2] is I32;
            let i = s[k - 2]->I32_0;
            &&& ops ==> (r is Ok <==> i < elems.len()) && (r is Err ==> oob)
            &&& r is Ok ==> ops && r == next && m1.stack@ == s.take(k - 2) && st1.tables@[a.unwrap()].elems@
                == elems.update(i as int, s[k - 1])
        },
        Instr::TableInit { table, elem } => {
            let a = table_addr(st0, inst, table);
            let elems = st0.tables@[a.unwrap()].elems@;
            let ops = 0 <= inst < st0.instances@.len() && a is Some && k >= 3 && s[k - 1] is I32
                && s[k - 2] is I32 && s[k - 3] is I32 && elem < st0.instances@[inst].elems@.len();
            let seg = st0.instances@[inst].elems@[elem as int].elems@;
            let (n, from, d) = (s[k - 1]->I32_0 as int, s[k - 2]->I32_0 as int, s[k - 3]->I32_0 as int);
            &&& ops ==> (r is Ok <==> from + n <= seg.len() && d + n <= elems.len()) && (r is Err ==> oob)
            &&& r is Ok ==> ops && r == next && m1.stack@ == s.take(k - 3) && st1.tables@[a.unwrap()].elems@
                == overwrite(elems, d, seg.subrange(from, from + n))
        },
        Instr::ElemDrop { elem } => {
            &&& r is Ok <==> (0 <= inst < st0.instances@.len() && elem < st0.instances@[inst].elems@.len())
            &&& r is Ok ==> r == next && m1.stack@ == s && st1.instances@[inst].elems@[elem as int].elems@.len() == 0
        },
        Instr::TableCopy { dst, src } => {
            let da = table_addr(st0, inst, dst);
            let sa = table_addr(st0, inst, src);
            let de = st0.tables@[da.unwrap()].elems@;
            let se = st0.tables@[sa.unwrap()].elems@;
            let ops = da is Some && sa is Some && k >= 3 && s[k - 1] is I32 && s[k - 2] is I32 && s[k - 3] is I32;
            let (n, from, d) = (s[k - 1]->I32_0 as int, s[k - 2]->I32_0 as int, s[k - 3]->I32_0 as int);
            &&& ops ==> (r is Ok <==> from + n <= se.len() && d + n <= de.len()) && (r is Err ==> oob)
            &&& r is Ok ==> ops && r == next && m1.stack@ == s.take(k - 3) && st1.tables@[da.unwrap()].elems@
                == overwrite(de, d, se.subrange(from, from + n))
        },
        Instr::TableGrow { table } => {
            let a = table_addr(st0, inst, table);
            &&& r is Ok <==> (a is Some && k >= 2 && s[k - 1] is I32)
            &&& r is Ok ==> (r == next && m1.stack@.drop_last() == s.take(k - 2) && (m1.stack@.last() matches Value::I32(g)
                && table_grow_outcome(st0.tables@[a.unwrap()], st1.tables@[a.unwrap()], s[k - 1]->I32_0, s[k - 2], g)))
        },
        Instr::TableSize { table } => {
            let a = table_addr(st0, inst, table);
            let len = st0.tables@[a.unwrap()].elems@.len();
            &&& r is Ok <==> (a is Some && len <= u32::MAX)
            &&& r is Ok ==> r == next && m1.stack@ == s.push(Value::I32(len as u32))
        },
        Instr::TableFill { table } => {
            let a = table_addr(st0, inst, table);
            let elems = st0.tables@[a.unwrap()].elems@;
            let ops = a is Some && k >= 3 && s[k - 1] is I32 && s[k - 3] is I32;
            let (n, i) = (s[k - 1]->I32_0 as int, s[k - 3]->I32_0 as int);
            &&& ops ==> (r is Ok <==> i + n <= elems.len()) && (r is Err ==> oob)
            &&& r is Ok ==> ops && r == next && m1.stack@ == s.take(k - 3) && st1.tables@[a.unwrap()].elems@
                == filled(elems, i, n, s[k - 2])
        },
        _ => true,
    }
}

/// Whether `r` and memory `m1` are what growing memory `m0` by `n`
/// pages gives: the old size in pages and the longer memory (its old
/// bytes kept), or `u32::MAX` and the memory unchanged; growth fails
/// where it would pass the memory's maximum or 65536 pages, and succeeds
/// otherwise on a memory of whole pages whose new size is addressable.
pub open spec fn memory_grow_outcome(m0: MemInst, m1: MemInst, n: u32, r: u32) -> bool {
    let old_len = m0.data@.len();
    let new_len = m1.data@.len();
    let cap: int = match m0.ty.limits.max {
        Some(m) => if m < 65536 {
            m as int
        } else {
            65536
        },
        None => 65536,
    };
    &&& m1.ty == m0.ty
    &&& r == u32::MAX || r == pages_of(old_len)
    &&& r != u32::MAX ==> new_len == (pages_of(old_len) + n) * 65536 && m1.data@.subrange(0, old_len as int) =~= m0.data@
    &&& r != u32::MAX ==> forall|j: int| old_len <= j < new_len ==> #[trigger] m1.data@[j] == 0u8
    &&& r == u32::MAX ==> m1 == m0
    &&& (pages_of(old_len) + n > cap) ==> r == u32::MAX
    &&& (pages_of(old_len) + n <= cap && (pages_of(old_len) + n) * 65536 <= usize::MAX && old_len % 65536 == 0)
        ==> r == pages_of(old_len)
}

/// What `memory.size`, `memory.grow` and the bulk memory and data-segment
/// instructions do, from machine `m0` and store `st0` to `m1` and `st1`:
/// they act on memory 0 and the data segments of the running instance;
/// accesses past a memory's or segment's end trap.
pub open spec fn memory_effect(
    st0: Store,
    st1: Store,
    m0: Machine,
    m1: Machine,
    instr: Instr,
    r: Result<Flow, Trap>,
) -> bool {
    let s = m0.stack@;
    let k = s.len() as int;
    let inst = m0.top.inst as int;
    let a = mem0(st0, inst);
    let data = st0.mems@[a].data@;
    let next = Ok::<Flow, Trap>(Flow::Next);
    let oob = r is Err && r->Err_0.msg@ == "out of bounds memory access"@;
    let three = k >= 3 && s[k - 1] is I32 && s[k - 2] is I32 && s[k - 3] is I32;
    let (n, from, d) = (s[k - 1]->I32_0 as int, s[k - 2]->I32_0 as int, s[k - 3]->I32_0 as int);
    match instr {
        Instr::MemorySize => {
            &&& r is Ok <==> (mem0_ok(st0, inst) && pages_of(data.len()) <= u32::MAX)
            &&& r is Ok ==> r == next && m1.stack@ == s.push(Value::I32(pages_of(data.len()) as u32))
        },
        Instr::MemoryGrow => {
            &&& r is Ok <==> (mem0_ok(st0, inst) && k >= 1 && s[k - 1] is I32 && data.len() <= 0x1_0000_0000)
            &&& r is Ok ==> (r == next && m1.stack@.drop_last() == s.drop_last() && (m1.stack@.last() matches Value::I32(g)
                && memory_grow_outcome(st0.mems@[a], st1.mems@[a], s[k - 1]->I32_0, g)))
        },
        Instr::MemoryInit { data: x } => {
            let ops = 0 <= inst < st0.instances@.len() && mem0_ok(st0, inst) && three && x < st0.instances@[inst].datas@.len();
            let seg = st0.instances@[inst].datas@[x as int].bytes@;
            &&& ops ==> (r is Ok <==> from + n <= seg.len() && d + n <= data.len()) && (r is Err ==> oob)
            &&& r is Ok ==> ops && r == next && m1.stack@ == s.take(k - 3) && st1.mems@[a].data@ == overwrite(
                data,
                d,
                seg.subrange(from, from + n),
            )
        },
        Instr::DataDrop { data: x } => {
            &&& r is Ok <==> (0 <= inst < st0.instances@.len() && x < st0.instances@[inst].datas@.len())
            &&& r is Ok ==> r == next && m1.stack@ == s && st1.instances@[inst].datas@[x as int].bytes@.len() == 0
        },
        Instr::MemoryCopy => {
            let ops = mem0_ok(st0, inst) && three;
            &&& ops ==> (r is Ok <==> from + n <= data.len() && d + n <= data.len()) && (r is Err ==> oob)
            &&& r is Ok ==> ops && r == next && m1.stack@ == s.take(k - 3) && st1.mems@[a].data@ == overwrite(
                data,
                d,
                data.subrange(from, from + n),
            )
        },
        Instr::MemoryFill => {
            let ops = mem0_ok(st0, inst) && three;
            &&& ops ==> (r is Ok <==> d + n <= data.len()) && (r is Err ==> oob)
            &&& r is Ok ==> ops && r == next && m1.stack@ == s.take(k - 3) && st1.mems@[a].data@ == filled(
                data,
                d,
                n,
                (from % 256) as u8,
            )
        },
        _ => true,
    }
}

/// What a constant or reference instruction does to the operand stack.
pub open spec fn const_effect(store: Store, m0: Machine, m1: Machine, instr: Instr, r: Result<Flow, Trap>) -> bool {
    let s = m0.stack@;
    let next = Ok::<Flow, Trap>(Flow::Next);
    match instr {
        Instr::I32Const(v) => r == next && m1.stack@ == s.push(Value::I32(v)),
        Instr::I64Const(v) => r == next && m1.stack@ == s.push(Value::I64(v)),
        Instr::F32Const(v) => r == next && m1.stack@ == s.push(Value::F32(v)),
        Instr::F64Const(v) => r == next && m1.stack@ == s.push(Value::F64(v)),
        Instr::V128Const(v) => r == next && m1.stack@ == s.push(Value::V128(v)),
        Instr::RefNull(t) => r == next && m1.stack@ == s.push(null_value(t)),
        Instr::RefIsNull => (r is Ok <==> s.len() > 0) && (r is Ok ==> r == next && m1.stack@
            == s.drop_last().push(
            Value::I32(
                if s.last() == Value::FuncRef(None) || s.last() == Value::ExternRef(None) {
                    1
                } else {
                    0
                },
            ),
        )),
        Instr::RefFunc { func } => {
            let a = func_addr(store, m0.top.inst as int, func);
            &&& r is Ok <==> (a is Some && a.unwrap() <= u32::MAX)
            &&& r is Ok ==> r == next && m1.stack@ == s.push(Value::FuncRef(Some(a.unwrap() as u32)))
        },
        _ => true,
    }
}

/// What `global.get` and `global.set` do: they read or write the global
/// that the running instance's index names.
pub open spec fn global_effect(
    st0: Store,
    st1: Store,
    m0: Machine,
    m1: Machine,
    instr: Instr,
    r: Result<Flow, Trap>,
) -> bool {
    let s = m0.stack@;
    match instr {
        Instr::GlobalGet { idx } => {
            let a = global_addr(st0, m0.top.inst as int, idx);
            &&& r is Ok <==> a is Some
            &&& r is Ok ==> m1.stack@ == s.push(st0.globals@[a.unwrap()].val) && st1.globals == st0.globals
        },
        Instr::GlobalSet { idx } => {
            let a = global_addr(st0, m0.top.inst as int, idx);
            &&& r is Ok <==> (a is Some && s.len() > 0)
            &&& r is Ok ==> m1.stack@ == s.drop_last() && st1.globals@ == st0.globals@.update(
                a.unwrap(),
                GlobalInst { ty: st0.globals@[a.unwrap()].ty, val: s.last() },
            )
        },
        _ => true,
    }
}

/// What a parametric or local-variable instruction does to the operand
/// stack and the running frame's locals.
pub open spec fn variable_effect(m0: Machine, m1: Machine, instr: Instr, r: Result<Flow, Trap>) -> bool {
    let s = m0.stack@;
    let n = s.len();
    let locals = m0.top.locals@;
    match instr {
        Instr::Drop => r is Ok ==> m1.stack@ == s.drop_last(),
        Instr::Select { .. } | Instr::SelectT { .. } => r is Ok ==> (n >= 3 && s[n - 1] is I32
            && m1.stack@ == s.take(n - 3).push(if s[n - 1]->I32_0 != 0 { s[n - 3] } else { s[n - 2] })),
        Instr::LocalGet { idx } => r is Ok <==> idx < locals.len()
            && (r is Ok ==> m1.stack@ == s.push(locals[idx as int])),
        Instr::LocalSet { idx } => r is Ok <==> (n > 0 && idx < locals.len())
            && (r is Ok ==> m1.stack@ == s.drop_last() && m1.top.locals@ == locals.update(idx as int, s[n - 1])),
        Instr::LocalTee { idx } => r is Ok <==> (n > 0 && idx < locals.len())
            && (r is Ok ==> m1.stack@ == s && m1.top.locals@ == locals.update(idx as int, s[n - 1])),
        _ => true,
    }
}

/// The (parameter, result) counts of a block type in instance `inst`.
pub open spec fn block_shape(store: Store, inst: int, bt: BlockType) -> Option<(nat, nat)> {
    match bt {
        BlockType::Empty => Some((0nat, 0nat)),
        BlockType::Val(_) => Some((0nat, 1nat)),
        BlockType::Type(i) => if 0 <= inst < store.instances@.len() && i < store.instances@[inst].types@.len() {
            Some((store.instances@[inst].types@[i as int].params@.len(), store.instances@[inst].types@[i as int].results@.len()))
        } else {
            None
        },
    }
}

/// What the structured-control instructions `block`, `loop`, `br` and
/// `return` do: a block pushes a control entry for its label, a branch
/// unwinds to its label keeping the label's arity, `return` leaves the
/// function with its results.
pub open spec fn control_effect(store: Store, m0: Machine, m1: Machine, instr: Instr, pc: usize, r: Result<Flow, Trap>) -> bool {
    let s = m0.stack@;
    let k = s.len() as int;
    let inst = m0.top.inst as int;
    let next = Ok::<Flow, Trap>(Flow::Next);
    match instr {
        Instr::Block { bt, end } => {
            let sh = block_shape(store, inst, bt);
            &&& r is Ok <==> (sh is Some && sh.unwrap().0 <= k)
            &&& r is Ok ==> r == next && m1.stack@ == s && m1.ctrls@ == m0.ctrls@.push(
                Ctrl { target: end as usize, arity: sh.unwrap().1 as usize, height: (k - sh.unwrap().0) as usize },
            )
        },
        Instr::Loop { bt, .. } => {
            let sh = block_shape(store, inst, bt);
            &&& r is Ok <==> (sh is Some && sh.unwrap().0 <= k)
            &&& r is Ok ==> r == next && m1.stack@ == s && m1.ctrls@ == m0.ctrls@.push(
                Ctrl { target: pc, arity: sh.unwrap().0 as usize, height: (k - sh.unwrap().0) as usize },
            )
        },
        Instr::If { bt, else_, end } => {
            let sh = block_shape(store, inst, bt);
            let c = s[k - 1]->I32_0;
            let skips = c == 0 && else_ == end;
            let entered = m0.ctrls@.push(
                Ctrl { target: end as usize, arity: sh.unwrap().1 as usize, height: (k - 1 - sh.unwrap().0) as usize },
            );
            &&& r is Ok <==> (k >= 1 && s[k - 1] is I32 && sh is Some && (sh.unwrap().0 <= k - 1 || skips))
            &&& r is Ok ==> m1.stack@ == s.drop_last()
            &&& r is Ok && c != 0 ==> r == next && m1.ctrls@ == entered
            &&& r is Ok && skips ==> r == Ok::<Flow, Trap>(Flow::Jump(end as usize)) && m1.ctrls == m0.ctrls
            &&& r is Ok && c == 0 && !skips ==> r == Ok::<Flow, Trap>(Flow::Jump(else_ as usize)) && m1.ctrls@ == entered
        },
        Instr::Else { end } => {
            &&& r is Ok <==> m0.ctrls@.len() > m0.top.ctrl_base
            &&& r is Ok ==> r == Ok::<Flow, Trap>(Flow::Jump(end as usize)) && m1.stack == m0.stack
                && m1.ctrls@ == m0.ctrls@.drop_last()
        },
        Instr::End => {
            &&& r is Ok <==> m0.ctrls@.len() > m0.top.ctrl_base
            &&& r is Ok ==> r == next && m1.stack == m0.stack && m1.ctrls@ == m0.ctrls@.drop_last()
        },
        Instr::Br { depth } => {
            &&& r is Err <==> branch_fails_at(m0.ctrls@, m0.top, s, depth)
            &&& r is Ok ==> ((r matches Ok(Flow::Returned)) <==> m0.ctrls@.len() - 1 - depth == m0.top.ctrl_base)
            &&& r matches Ok(Flow::Jump(t)) ==> branched(m0.ctrls@, s, m1, depth, t)
            &&& r matches Ok(Flow::Returned) ==> returned_by_branch(m0.ctrls@, m0.top, s, m1, depth)
                && m1.depth() + 1 == m0.depth()
        },
        Instr::BrIf { depth } => {
            &&& r is Err <==> !(k >= 1 && s[k - 1] is I32) || (s[k - 1]->I32_0 != 0 && branch_fails_at(
                m0.ctrls@,
                m0.top,
                s.drop_last(),
                depth,
            ))
            &&& r is Ok ==> k >= 1 && s[k - 1] is I32
            &&& r is Ok && s[k - 1]->I32_0 == 0 ==> r == next && m1.stack@ == s.drop_last() && m1.ctrls == m0.ctrls
            &&& r matches Ok(Flow::Jump(t)) ==> s[k - 1]->I32_0 != 0 && branched(m0.ctrls@, s.drop_last(), m1, depth, t)
            &&& r matches Ok(Flow::Returned) ==> s[k - 1]->I32_0 != 0 && returned_by_branch(
                m0.ctrls@,
                m0.top,
                s.drop_last(),
                m1,
                depth,
            ) && m1.depth() + 1 == m0.depth()
        },
        Instr::BrTable { depths, default } => {
            let i = s[k - 1]->I32_0;
            let d = if i < depths@.len() {
                depths@[i as int]
            } else {
                default
            };
            &&& r is Err <==> !(k >= 1 && s[k - 1] is I32) || branch_fails_at(m0.ctrls@, m0.top, s.drop_last(), d)
            &&& r is Ok ==> k >= 1 && s[k - 1] is I32
            &&& r matches Ok(Flow::Jump(t)) ==> branched(m0.ctrls@, s.drop_last(), m1, d, t)
            &&& r matches Ok(Flow::Returned) ==> returned_by_branch(m0.ctrls@, m0.top, s.drop_last(), m1, d)
                && m1.depth() + 1 == m0.depth()
        },
        Instr::Return => {
            &&& r is Err <==> k < m0.top.results
            &&& r is Ok ==> r == Ok::<Flow, Trap>(Flow::Returned) && m1.depth() + 1 == m0.depth()
                && m1.stack@ == unwind(s, m0.top.base as int, m0.top.results as int)
        },
        Instr::Call { func } => match func_addr(store, inst, func) {
            Some(a) => call_effect(store, m0, m1, s, a, r),
            None => r is Err,
        },
        Instr::CallIndirect { table, ty } => {
            let ta = table_addr(store, inst, table);
            let ops = k >= 1 && s[k - 1] is I32 && 0 <= inst < store.instances@.len() && ta is Some;
            let elems = store.tables@[ta.unwrap()].elems@;
            let i = s[k - 1]->I32_0;
            let types = store.instances@[inst].types@;
            &&& !ops ==> r is Err
            &&& ops && i >= elems.len() ==> r is Err && r->Err_0.msg@ == "undefined element"@
            &&& ops && i < elems.len() && elems[i as int] == Value::FuncRef(None) ==> r is Err
                && r->Err_0.msg@ == "uninitialized element"@
            &&& ops && i < elems.len() ==> (elems[i as int] matches Value::FuncRef(Some(a)) && ty < types.len()
                && a < store.funcs@.len() && !(store.funcs@[a as int].func_type().params@ == types[ty as int].params@
                && store.funcs@[a as int].func_type().results@ == types[ty as int].results@) ==> r is Err
                && r->Err_0.msg@ == "indirect call type mismatch"@)
            &&& ops && i < elems.len() ==> match elems[i as int] {
                Value::FuncRef(Some(a)) => (ty < types.len() && a < store.funcs@.len()
                    && store.funcs@[a as int].func_type().params@ == types[ty as int].params@
                    && store.funcs@[a as int].func_type().results@ == types[ty as int].results@) ==> call_effect(
                    store,
                    m0,
                    m1,
                    s.drop_last(),
                    a as int,
                    r,
                ),
                _ => true,
            }
        },
        _ => true,
    }
}

/// Whether machine `m1` is what a branch to relative depth `depth`,
/// with operands `s` and control stack `ctrls`, jumping to `t`, leaves:
/// the label's operands on top of its entry height and the labels inside
/// it gone.
pub open spec fn branched(ctrls: Seq<Ctrl>, s: Seq<Value>, m1: Machine, depth: u32, t: usize) -> bool {
    let idx = ctrls.len() - 1 - depth;
    let c = ctrls[idx];
    &&& m1.stack@ == unwind(s, c.height as int, c.arity as int)
    &&& m1.ctrls@ == ctrls.take(idx)
    &&& t == c.target
}

/// The locals of a new frame: the arguments, then each declared local at
/// its type's zero value.
pub open spec fn frame_locals(args: Seq<Value>, decl: Seq<ValType>) -> Seq<Value> {
    args + decl.map_values(|t: ValType| default_value(t))
}

/// Whether `m1` is `m0` having entered module function `f` (of `ty`,
/// instance `inst`, `code`) with operands `s` on the stack: the arguments
/// leave the stack for the new frame's locals, the caller's frame is
/// saved, and the function's own label is opened.
pub open spec fn entered(m0: Machine, m1: Machine, s: Seq<Value>, ty: FuncType, inst: usize, code: Rc<Code>) -> bool {
    let n = ty.params@.len();
    let base = s.len() - n;
    &&& n <= s.len()
    &&& m1.stack@ == s.take(base)
    &&& m1.top.locals@ == frame_locals(s.skip(base), code.locals@)
    &&& m1.top.inst == inst
    &&& m1.top.code == code
    &&& m1.top.pc == 0
    &&& m1.top.base == base
    &&& m1.top.results == ty.results@.len()
    &&& m1.top.ctrl_base == m0.ctrls@.len()
    &&& m1.ctrls@ == m0.ctrls@.push(Ctrl { target: code.body@.len() as usize, arity: ty.results@.len() as usize, height: base as usize })
    &&& m1.callers@ == if m0.active {
        m0.callers@.push(m0.top)
    } else {
        m0.callers@
    }
    &&& m1.active
}

/// `m` is a machine that has just entered a module function (of type `ty`,
/// instance `inst`, code `code`) with the arguments `s` and no caller: the
/// arguments have become the first locals, the body starts at its first
/// instruction, and the function's own label is the only control entry.
pub open spec fn started(m: Machine, s: Seq<Value>, ty: FuncType, inst: usize, code: Rc<Code>) -> bool {
    let n = ty.params@.len();
    let base = s.len() - n;
    &&& n <= s.len()
    &&& m.stack@ == s.take(base)
    &&& m.top.locals@ == frame_locals(s.skip(base), code.locals@)
    &&& m.top.inst == inst
    &&& m.top.code == code
    &&& m.top.pc == 0
    &&& m.top.base == base
    &&& m.top.results == ty.results@.len()
    &&& m.top.ctrl_base == 0
    &&& m.ctrls@ == seq![Ctrl { target: code.body@.len() as usize, arity: ty.results@.len() as usize, height: base as usize }]
    &&& m.callers@.len() == 0
    &&& m.active
    &&& m.queued is None
}

/// What calling the function at store address `a` with operands `s` does:
/// a host function takes its arguments off the stack and is handed to the
/// embedder; a module function is entered, unless the call stack is full.
pub open spec fn call_effect(store: Store, m0: Machine, m1: Machine, s: Seq<Value>, a: int, r: Result<Flow, Trap>) -> bool {
    let k = s.len() as int;
    match store.funcs@[a] {
        FuncInst::Host { ty, id } => {
            let n = ty.params@.len() as int;
            &&& r is Ok <==> n <= k
            &&& r is Ok ==> m1.stack@ == s.take(k - n) && (r matches Ok(Flow::Yield(Event::Host { id: i, args }))
                && i == id && args@ == s.skip(k - n))
        },
        FuncInst::Wasm { ty, inst, code } => {
            &&& r is Ok <==> (m0.depth() < MAX_CALL_DEPTH && ty.params@.len() <= k && k + code.locals@.len()
                <= MAX_VALUE_STACK)
            &&& m0.depth() >= MAX_CALL_DEPTH ==> r is Err && r->Err_0.msg@ == "call stack exhausted"@
            &&& r is Ok ==> r == Ok::<Flow, Trap>(Flow::Next) && entered(m0, m1, s, ty, inst, code)
        },
    }
}

/// Whether `m1` is what a branch to relative depth `d` that targets the
/// running function's own label leaves: the label's operands are kept and
/// the frame is left with its results.
pub open spec fn returned_by_branch(ctrls: Seq<Ctrl>, top: Frame, s: Seq<Value>, m1: Machine, d: u32) -> bool {
    let idx = ctrls.len() - 1 - d;
    let c = ctrls[idx];
    &&& idx == top.ctrl_base
    &&& m1.stack@ == unwind(unwind(s, c.height as int, c.arity as int), top.base as int, top.results as int)
}

/// Running until the budget is spent and then running again is one run
/// with the two budgets together: the rounds of a run that paused,
/// followed by those of the next run from where it stopped, make a run
/// that ends as the second one does.
pub proof fn lemma_runs_compose(
    ms1: Seq<Machine>,
    ss1: Seq<Store>,
    f1: nat,
    ms2: Seq<Machine>,
    ss2: Seq<Store>,
    f2: nat,
    e: Event,
)
    requires
        ran(ms1, ss1, f1, Event::Paused),
        ran(ms2, ss2, f2, e),
        ms2[0] == ms1.last(),
        ss2[0] == ss1.last(),
    ensures
        ran(ms1 + ms2.skip(1), ss1 + ss2.skip(1), f1 + f2, e),
{
    let ms = ms1 + ms2.skip(1);
    let ss = ss1 + ss2.skip(1);
    let n1 = ms1.len() - 1;
    let n2 = ms2.len() - 1;
    assert forall|i: int| 0 <= i < ms2.len() implies #[trigger] ms2[i] == ms[n1 + i] && ss2[i] == ss[n1 + i] by {
        if i > 0 {
            assert(ms[n1 + i] == ms2.skip(1)[i - 1]);
            assert(ss[n1 + i] == ss2.skip(1)[i - 1]);
        }
    }
    assert forall|i: int| 0 <= i < ms1.len() implies #[trigger] ms1[i] == ms[i] && ss1[i] == ss[i] by {}
    assert forall|i: int| 0 <= i < n1 implies #[trigger] round(ms, ss, i) by {
        assert(round(ms1, ss1, i));
        assert(ms1[i + 1] == ms[i + 1]);
    }
    assert forall|i: int| 0 <= i < n2 - 1 implies #[trigger] round(ms, ss, n1 + i) by {
        assert(round(ms2, ss2, i));
        assert(ms2[i + 1] == ms[n1 + i + 1]);
    }
    assert forall|i: int| 0 <= i < n1 + n2 - 1 implies #[trigger] round(ms, ss, i) by {
        if i >= n1 {
            assert(round(ms, ss, n1 + (i - n1)));
        }
    }
    if e is Paused {
        if n2 > 0 {
            assert(round(ms2, ss2, n2 - 1));
            assert(ms2[n2 - 1] == ms[n1 + n2 - 1] && ms2[n2] == ms[n1 + n2]);
            assert(round(ms, ss, n1 + n2 - 1));
        }
    } else {
        assert(ms2[n2 - 1] == ms[n1 + n2 - 1] && ms2[n2] == ms[n1 + n2]);
        assert(ss2[n2 - 1] == ss[n1 + n2 - 1] && ss2[n2] == ss[n1 + n2]);
    }
}

/// What executing `instr` (at `pc`) does to the machine `m0` and the store
/// `s0`, giving `m1`, `s1` and the outcome `r`: each kind of instruction
/// has its effect.
pub open spec fn step_post(s0: Store, s1: Store, m0: Machine, m1: Machine, instr: Instr, pc: usize, r: Result<Flow, Trap>) -> bool {
    &&& m1.queued == m0.queued
    &&& (instr is Load || instr is Store || instr is MemorySize || instr is MemoryGrow || instr is MemoryInit
        || instr is DataDrop || instr is MemoryCopy || instr is MemoryFill || instr is SimdMem) && r is Err
        ==> s1.mems == s0.mems
    &&& (r matches Ok(Flow::Next)) || (r matches Ok(Flow::Jump(_))) ==> m1.active
    &&& r matches Ok(Flow::Yield(e)) ==> (e is Host || e is Float || e is SimdFloat)
    &&& instr matches Instr::Load { op, offset, .. } ==> load_effect(s0, m0, m1, op, offset, r)
    &&& instr matches Instr::Store { op, offset, .. } ==> store_effect(s0, s1, m0, m1, op, offset, r)
    &&& instr matches Instr::Num(op) ==> num_effect(m0, m1, op, r)
    &&& instr matches Instr::Simd(op) ==> crate::simd::simd_effect(m0, m1, op, r)
    &&& instr matches Instr::SimdLane { op, lane } ==> crate::simd::lane_effect(m0, m1, op, lane, r)
    &&& instr matches Instr::Shuffle(lanes) ==> crate::simd::shuffle_effect(m0, m1, lanes@, r)
    &&& instr matches Instr::SimdMem { op, offset, lane, .. } ==> crate::simd::simd_mem_effect(m0, m1, s0, s1, op, offset, lane, r)
    &&& instr is Unreachable ==> r is Err && r->Err_0.msg@ == "unreachable"@
    &&& variable_effect(m0, m1, instr, r)
    &&& global_effect(s0, s1, m0, m1, instr, r)
    &&& const_effect(s0, m0, m1, instr, r)
    &&& table_effect(s0, s1, m0, m1, instr, r)
    &&& memory_effect(s0, s1, m0, m1, instr, r)
    &&& control_effect(s0, m0, m1, instr, pc, r)
}

/// `m` with its program counter at `pc`.
pub open spec fn at_pc(m: Machine, pc: usize) -> Machine {
    Machine { top: Frame { pc: pc, ..m.top }, ..m }
}

/// Whether a frame for function `a` can be pushed on `m`: the call depth
/// has room, `a` is a function of a module, its arguments are on the
/// stack, and the stack has room for its locals.
pub open spec fn frame_fits(m: Machine, s: Store, a: usize) -> bool {
    &&& m.depth() < MAX_CALL_DEPTH
    &&& a < s.funcs@.len()
    &&& s.funcs@[a as int] matches FuncInst::Wasm { ty, code, .. } && ty.params@.len() <= m.stack@.len()
        && m.stack@.len() + code.locals@.len() <= MAX_VALUE_STACK
}

/// Whether pushing a frame for function `a` on `m` fails for want of room:
/// the call depth is at its limit, or the function's arguments are there
/// but its locals do not fit on the stack.
pub open spec fn frame_exhausts(m: Machine, s: Store, a: usize) -> bool {
    ||| m.depth() >= MAX_CALL_DEPTH
    ||| a < s.funcs@.len() && (s.funcs@[a as int] matches FuncInst::Wasm { ty, code, .. } && ty.params@.len()
        <= m.stack@.len() && m.stack@.len() + code.locals@.len() > MAX_VALUE_STACK)
}

/// What one round of the run loop does to the machine `m0` and the store
/// `s0`, giving `m1`, `s1` and the report `out`: a machine with no running
/// frame hands over its values; past the end of the running body the
/// frame returns (a stack too short for its results is a fault); otherwise
/// the instruction at the program counter is executed with the counter
/// moved past it, a jump then setting the counter, a trap or a request to
/// the embedder being reported.
pub open spec fn tick_post(m0: Machine, s0: Store, m1: Machine, s1: Store, out: Option<Event>) -> bool {
    if !m0.active {
        &&& s1 == s0
        &&& out matches Some(Event::Done(v)) && v@ == m0.stack@
        &&& m1.stack@.len() == 0
        &&& m1.callers == m0.callers
        &&& m1.top == m0.top
        &&& m1.active == m0.active
        &&& m1.ctrls == m0.ctrls
        &&& m1.queued == m0.queued
    } else if m0.top.pc >= m0.top.code.body@.len() {
        &&& s1 == s0
        &&& if m0.stack@.len() < m0.top.results {
            &&& m1 == m0
            &&& out matches Some(Event::Trapped(t)) && t.msg@ == "invalid machine state"@
        } else {
            &&& frame_popped(m0, m1)
            &&& out is None
        }
    } else {
        let pc = m0.top.pc;
        exists|m2: Machine, r: Result<Flow, Trap>| {
            &&& #[trigger] step_post(s0, s1, at_pc(m0, (pc + 1) as usize), m2, m0.top.code.body@[pc as int], pc, r)
            &&& match r {
                Err(t) => out == Some(Event::Trapped(t)) && m1 == m2,
                Ok(Flow::Jump(t)) => out is None && m1 == at_pc(m2, t),
                Ok(Flow::Yield(e)) => out == Some(e) && m1 == m2,
                Ok(_) => out is None && m1 == m2,
            }
        }
    }
}

/// Round `i` of a run through the machines `ms` and stores `ss` reported
/// nothing.
pub open spec fn round(ms: Seq<Machine>, ss: Seq<Store>, i: int) -> bool {
    tick_post(ms[i], ss[i], ms[i + 1], ss[i + 1], None)
}

/// `ms` and `ss` are the machines and stores of a run of at most `fuel`
/// rounds that ended with `e`: every round but the last reported nothing;
/// the last reported `e`, or, where `e` is `Paused`, the rounds were all
/// `fuel` of them and reported nothing.
pub open spec fn ran(ms: Seq<Machine>, ss: Seq<Store>, fuel: nat, e: Event) -> bool {
    let n = ms.len() - 1;
    &&& ms.len() >= 1
    &&& ss.len() == ms.len()
    &&& n <= fuel
    &&& forall|i: int| 0 <= i < n - 1 ==> #[trigger] round(ms, ss, i)
    &&& if e is Paused {
        &&& n == fuel
        &&& n > 0 ==> round(ms, ss, n - 1)
    } else {
        &&& n > 0
        &&& tick_post(ms[n - 1], ss[n - 1], ms[n], ss[n], Some(e))
    }
}

/// Whether a branch `d` labels out on `m` cannot be taken: there is no such
/// label, the stack lacks its values, or it returns from the function
/// with too few values left for the function's results.
pub open spec fn branch_fails(m: Machine, d: u32) -> bool {
    branch_fails_at(m.ctrls@, m.top, m.stack@, d)
}

/// Whether branch `d` cannot be taken with control entries `ctrls`,
/// running frame `top` and operands `s` (see `branch_fails`).
pub open spec fn branch_fails_at(ctrls: Seq<Ctrl>, top: Frame, s: Seq<Value>, d: u32) -> bool {
    let idx = ctrls.len() - 1 - d;
    let c = ctrls[idx];
    ||| d >= ctrls.len()
    ||| s.len() < c.arity
    ||| idx == top.ctrl_base && unwind(s, c.height as int, c.arity as int).len() < top.results
}

/// `m1` is `m0` with its running frame returned: the frame's results kept
/// above its base, its control entries dropped, and its caller (if any)
/// resumed.
pub open spec fn frame_popped(m0: Machine, m1: Machine) -> bool {
    &&& m1.stack@ == unwind(m0.stack@, m0.top.base as int, m0.top.results as int)
    &&& m1.ctrls@ == (if m0.top.ctrl_base < m0.ctrls@.len() { m0.ctrls@.take(m0.top.ctrl_base as int) } else { m0.ctrls@ })
    &&& m1.queued == m0.queued
    &&& if m0.callers@.len() > 0 {
        &&& m1.active
        &&& m1.top == m0.callers@.last()
        &&& m1.callers@ == m0.callers@.drop_last()
    } else {
        &&& !m1.active
        &&& m1.top == m0.top
        &&& m1.callers@ == m0.callers@
    }
}

/// The store address of function `idx` of instance `inst`, where both exist.
pub open spec fn func_addr(store: Store, inst: int, idx: u32) -> Option<int> {
    if 0 <= inst < store.instances@.len() && idx < store.instances@[inst].func_addrs@.len()
        && store.instances@[inst].func_addrs@[idx as int] < store.funcs@.len() {
        Some(store.instances@[inst].func_addrs@[idx as int] as int)
    } else {
        None
    }
}

/// The store address of table `idx` of instance `inst`, where both exist.
pub open spec fn table_addr(store: Store, inst: int, idx: u32) -> Option<int> {
    if 0 <= inst < store.instances@.len() && idx < store.instances@[inst].table_addrs@.len()
        && store.instances@[inst].table_addrs@[idx as int] < store.tables@.len() {
        Some(store.instances@[inst].table_addrs@[idx as int] as int)
    } else {
        None
    }
}

/// The store address of global `idx` of instance `inst`, where both exist.
pub open spec fn global_addr(store: Store, inst: int, idx: u32) -> Option<int> {
    if 0 <= inst < store.instances@.len() && idx < store.instances@[inst].global_addrs@.len()
        && store.instances@[inst].global_addrs@[idx as int] < store.globals@.len() {
        Some(store.instances@[inst].global_addrs@[idx as int] as int)
    } else {
        None
    }
}

/// Whether the instance `i` has a memory 0 in the store.
pub open spec fn mem0_ok(store: Store, i: int) -> bool {
    &&& 0 <= i < store.instances@.len()
    &&& store.instances@[i].mem_addrs@.len() > 0
    &&& store.instances@[i].mem_addrs@[0] < store.mems@.len()
}

/// The store address of memory 0 of instance `i`.
pub open spec fn mem0(store: Store, i: int) -> int {
    store.instances@[i].mem_addrs@[0] as int
}

/// A load of the bytes a store has just written reads back the stored
/// value, reduced to the stored width.
pub proof fn lemma_load_after_store(data: Seq<u8>, at: int, v: nat, w: nat)
    requires
        0 <= at,
        at + w <= data.len(),
    ensures
        load_at(written(data, at, le_seq(v, w)), at, w as int) == Some(v % pow2(8 * w)),
{
    lemma_written_read(data, at, le_seq(v, w));
    lemma_le_roundtrip(v, w);
}

/// A store leaves every load of bytes outside its range unchanged.
pub proof fn lemma_load_past_store(data: Seq<u8>, at: int, v: nat, w: nat, at2: int, w2: int)
    requires
        0 <= at,
        at + w <= data.len(),
        0 <= at2,
        0 <= w2,
        at2 + w2 <= at || at + w <= at2,
    ensures
        load_at(written(data, at, le_seq(v, w)), at2, w2) == load_at(data, at2, w2),
{
    lemma_written_read(data, at, le_seq(v, w));
    if at2 + w2 <= data.len() {
        assert(written(data, at, le_seq(v, w)).subrange(at2, at2 + w2) =~= data.subrange(at2, at2 + w2));
    }
}

impl Machine {
    /// Number of active frames.
    pub open spec fn depth(&self) -> nat {
        self.callers@.len() + if self.active { 1nat } else { 0nat }
    }

    pub open spec fn wf(&self) -> bool {
        &&& self.depth() <= MAX_CALL_DEPTH
        &&& self.active || self.callers@.len() == 0
    }

    /// A machine with `args` on its stack and no frame.
    pub fn new(args: &[Value]) -> (m: Machine)
        ensures
            m.wf(),
            m.depth() == 0,
            m.stack@ == args@,
            m.queued is None,
            !m.active,
            m.callers@.len() == 0,
            m.ctrls@.len() == 0,
    {
        let mut stack: Vec<Value> = Vec::new();
        let mut i: usize = 0;
        while i < args.len()
            invariant
                i <= args.len(),
                stack@ == args@.take(i as int),
            decreases args.len() - i,
        {
            stack.push(args[i]);
            i = i + 1;
            assert(stack@ =~= args@.take(i as int));
        }
        assert(args@.take(args.len() as int) =~= args@);
        let empty = Code { locals: Vec::new(), body: Vec::new() };
        Machine {
            stack,
            callers: Vec::new(),
            top: Frame {
                code: Rc::new(empty),
                inst: 0,
                locals: Vec::new(),
                pc: 0,
                base: 0,
                ctrl_base: 0,
                results: 0,
            },
            active: false,
            ctrls: Vec::new(),
            queued: None,
        }
    }

    /// The current stack contents.
    pub fn values(&self) -> (r: &Vec<Value>)
        ensures
            r@ == self.stack@,
    {
        &self.stack
    }

    // ---- value stack helpers ----
    pub fn push(&mut self, v: Value)
        ensures
            final(self).stack@ == old(self).stack@.push(v),
            final(self).callers == old(self).callers,
            final(self).top == old(self).top,
            final(self).active == old(self).active,
            final(self).ctrls == old(self).ctrls,
            final(self).queued == old(self).queued,
    {
        self.stack.push(v);
    }

    pub fn pop(&mut self) -> (r: Result<Value, Trap>)
        ensures
            old(self).stack@.len() > 0 <==> r is Ok,
            r is Ok ==> r->Ok_0 == old(self).stack@.last() && final(self).stack@ == old(self).stack@.drop_last(),
            r is Err ==> final(self).stack == old(self).stack,
            final(self).callers == old(self).callers,
            final(self).top == old(self).top,
            final(self).active == old(self).active,
            final(self).ctrls == old(self).ctrls,
            final(self).queued == old(self).queued,
    {
        if self.stack.len() == 0 {
            return Err(fault());
        }
        match self.stack.pop() {
            Some(v) => Ok(v),
            None => Err(fault()),
        }
    }

    pub fn pop_u32(&mut self) -> (r: Result<u32, Trap>)
        ensures
            r is Ok ==> old(self).stack@.len() > 0 && old(self).stack@.last() == Value::I32(r->Ok_0)
                && final(self).stack@ == old(self).stack@.drop_last(),
            (old(self).stack@.len() > 0 && old(self).stack@.last() is I32) ==> r is Ok,
            final(self).callers == old(self).callers,
            final(self).top == old(self).top,
            final(self).active == old(self).active,
            final(self).ctrls == old(self).ctrls,
            final(self).queued == old(self).queued,
    {
        match self.pop()? {
            Value::I32(v) => Ok(v),
            _ => Err(fault()),
        }
    }

    pub fn pop_u64(&mut self) -> (r: Result<u64, Trap>)
        ensures
            r is Ok ==> old(self).stack@.len() > 0 && old(self).stack@.last() == Value::I64(r->Ok_0)
                && final(self).stack@ == old(self).stack@.drop_last(),
            (old(self).stack@.len() > 0 && old(self).stack@.last() is I64) ==> r is Ok,
            final(self).callers == old(self).callers,
            final(self).top == old(self).top,
            final(self).active == old(self).active,
            final(self).ctrls == old(self).ctrls,
            final(self).queued == old(self).queued,
    {
        match self.pop()? {
            Value::I64(v) => Ok(v),
            _ => Err(fault()),
        }
    }

    pub fn pop_v128(&mut self) -> (r: Result<u128, Trap>)
        ensures
            r is Ok ==> old(self).stack@.len() > 0 && old(self).stack@.last() == Value::V128(r->Ok_0)
                && final(self).stack@ == old(self).stack@.drop_last(),
            (old(self).stack@.len() > 0 && old(self).stack@.last() is V128) ==> r is Ok,
            final(self).callers == old(self).callers,
            final(self).top == old(self).top,
            final(self).active == old(self).active,
            final(self).ctrls == old(self).ctrls,
            final(self).queued == old(self).queued,
    {
        match self.pop()? {
            Value::V128(v) => Ok(v),
            _ => Err(fault()),
        }
    }

    /// Pops `n` values, deepest first.
    pub fn pop_n(&mut self, n: usize) -> (r: Result<Vec<Value>, Trap>)
        ensures
            (n <= old(self).stack@.len()) <==> r is Ok,
            r is Ok ==> r->Ok_0@ == old(self).stack@.skip(old(self).stack@.len() - n)
                && final(self).stack@ == old(self).stack@.take(old(self).stack@.len() - n),
            r is Err ==> final(self).stack == old(self).stack,
            final(self).callers == old(self).callers,
            final(self).top == old(self).top,
            final(self).active == old(self).active,
            final(self).ctrls == old(self).ctrls,
            final(self).queued == old(self).queued,
    {
        if self.stack.len() < n {
            return Err(fault());
        }
        let at = self.stack.len() - n;
        let r = self.stack.split_off(at);
        assert(r@ =~= old(self).stack@.skip(at as int));
        Ok(r)
    }

    /// Pushes `vals` in order.
    pub fn push_all(&mut self, vals: Vec<Value>)
        ensures
            final(self).stack@ == old(self).stack@ + vals@,
            final(self).callers == old(self).callers,
            final(self).top == old(self).top,
            final(self).active == old(self).active,
            final(self).ctrls == old(self).ctrls,
            final(self).queued == old(self).queued,
    {
        let mut v = vals;
        self.stack.append(&mut v);
    }

    /// Continues after an event with the values it asked for.
    pub fn resume(&mut self, vals: Vec<Value>)
        ensures
            final(self).stack@ == old(self).stack@ + vals@,
            final(self).callers == old(self).callers,
            final(self).top == old(self).top,
            final(self).active == old(self).active,
            final(self).ctrls == old(self).ctrls,
            final(self).queued == old(self).queued,
    {
        self.push_all(vals);
    }

    fn push_bool(&mut self, b: bool)
        ensures
            final(self).stack@ == old(self).stack@.push(Value::I32(if b { 1 } else { 0 })),
            final(self).callers == old(self).callers,
            final(self).top == old(self).top,
            final(self).active == old(self).active,
            final(self).ctrls == old(self).ctrls,
            final(self).queued == old(self).queued,
    {
        self.push(Value::I32(if b { 1 } else { 0 }));
    }

    // ---- frames ----
    /// Enters the function at `func_addr`, taking its arguments from the stack.
    pub fn push_frame(&mut self, store: &Store, func_addr: usize) -> (r: Result<(), Trap>)
        requires
            old(self).wf(),
        ensures
            final(self).wf(),
            old(self).depth() >= MAX_CALL_DEPTH ==> r is Err && r->Err_0.msg@ == "call stack exhausted"@,
            r is Ok ==> final(self).depth() == old(self).depth() + 1 && final(self).active,
            r is Ok ==> final(self).top.pc == 0,
            final(self).queued == old(self).queued,
            r is Err ==> final(self).active == old(self).active && final(self).depth() == old(self).depth(),
            r is Ok ==> func_addr < store.funcs@.len() && (store.funcs@[func_addr as int] matches FuncInst::Wasm {
                ty,
                inst,
                code,
            } && entered(*old(self), *final(self), old(self).stack@, ty, inst, code)),
            r is Ok <==> frame_fits(*old(self), *store, func_addr),
            r is Err ==> *final(self) == *old(self),
            r matches Err(t) ==> t.msg@ == (if frame_exhausts(*old(self), *store, func_addr) {
                "call stack exhausted"@
            } else {
                "invalid machine state"@
            }),
    {
        if self.callers.len() + (if self.active { 1 } else { 0 }) >= MAX_CALL_DEPTH {
            return Err(trap("call stack exhausted"));
        }
        if func_addr >= store.funcs.len() {
            return Err(fault());
        }
        let (nparams, results, inst, code) = match &store.funcs[func_addr] {
            FuncInst::Wasm { ty, inst, code } => (ty.params.len(), ty.results.len(), *inst, share(code)),
            FuncInst::Host { .. } => {
                return Err(fault());
            },
        };
        if self.stack.len() < nparams {
            return Err(fault());
        }
        let nlocals = code.locals.len();
        if nlocals > MAX_VALUE_STACK || self.stack.len() > MAX_VALUE_STACK - nlocals {
            return Err(trap("call stack exhausted"));
        }
        let base = self.stack.len() - nparams;
        let ghost s0 = self.stack@;
        let mut locals = self.stack.split_off(base);
        let mut k: usize = 0;
        while k < code.locals.len()
            invariant
                k <= code.locals@.len(),
                locals@ == frame_locals(s0.skip(base as int), code.locals@.take(k as int)),
            decreases code.locals.len() - k,
        {
            locals.push(Value::default_for(code.locals[k]));
            k = k + 1;
            assert(locals@ =~= frame_locals(s0.skip(base as int), code.locals@.take(k as int)));
        }
        assert(code.locals@.take(code.locals@.len() as int) =~= code.locals@);
        let body_len = code.body.len();
        let mut frame = Frame { code, inst, locals, pc: 0, base, ctrl_base: self.ctrls.len(), results };
        if self.active {
            std::mem::swap(&mut self.top, &mut frame);
            self.callers.push(frame);
        } else {
            self.top = frame;
            self.active = true;
        }
        // Function-level ctrl: branching to it returns from the function.
        self.ctrls.push(Ctrl { target: body_len, arity: results, height: self.stack.len() });
        Ok(())
    }

    /// Leaves the running frame, keeping its `results` top values.
    pub fn pop_frame(&mut self) -> (r: Result<(), Trap>)
        requires
            old(self).wf(),
            old(self).active,
        ensures
            final(self).wf(),
            final(self).queued == old(self).queued,
            final(self).depth() <= old(self).depth(),
            r is Ok ==> final(self).depth() + 1 == old(self).depth(),
            r is Ok ==> final(self).stack@ == unwind(old(self).stack@, old(self).top.base as int, old(self).top.results as int),
            r is Err <==> old(self).stack@.len() < old(self).top.results,
            r is Err ==> *final(self) == *old(self) && r->Err_0.msg@ == "invalid machine state"@,
            r is Ok ==> frame_popped(*old(self), *final(self)),
    {
        let results = self.top.results;
        if self.stack.len() < results {
            return Err(fault());
        }
        let at = self.stack.len() - results;
        let mut keep = self.stack.split_off(at);
        self.stack.truncate(self.top.base);
        self.stack.append(&mut keep);
        proof {
            assert(self.stack@ =~= unwind(old(self).stack@, old(self).top.base as int, results as int));
        }
        self.ctrls.truncate(self.top.ctrl_base);
        proof {
            if old(self).top.ctrl_base < old(self).ctrls@.len() {
                assert(self.ctrls@ =~= old(self).ctrls@.take(old(self).top.ctrl_base as int));
            }
        }
        match self.callers.pop() {
            Some(f) => {
                self.top = f;
                assert(self.callers@ =~= old(self).callers@.drop_last());
            },
            None => {
                self.active = false;
            },
        }
        assert(self.stack@ == unwind(old(self).stack@, old(self).top.base as int, old(self).top.results as int));
        assert(self.ctrls@ == (if old(self).top.ctrl_base < old(self).ctrls@.len() { old(self).ctrls@.take(old(self).top.ctrl_base as int) } else { old(self).ctrls@ }));
        assert(self.queued == old(self).queued);
        Ok(())
    }

    /// The (parameter, result) counts of a block type.
    fn block_arity(&self, store: &Store, bt: BlockType) -> (r: Result<(usize, usize), Trap>)
        ensures
            r is Ok <==> block_shape(*store, self.top.inst as int, bt) is Some,
            r is Ok ==> block_shape(*store, self.top.inst as int, bt) == Some((r->Ok_0.0 as nat, r->Ok_0.1 as nat)),
    {
        match bt {
            BlockType::Empty => Ok((0, 0)),
            BlockType::Val(_) => Ok((0, 1)),
            BlockType::Type(i) => {
                let inst = self.top.inst;
                if inst >= store.instances.len() || i as usize >= store.instances[inst].types.len() {
                    return Err(fault());
                }
                let ft = &store.instances[inst].types[i as usize];
                Ok((ft.params.len(), ft.results.len()))
            },
        }
    }

    /// Pushes a control entry whose block takes `params` values from the stack.
    fn enter(&mut self, target: usize, params: usize, arity: usize) -> (r: Result<(), Trap>)
        requires
            old(self).wf(),
        ensures
            final(self).wf(),
            final(self).depth() == old(self).depth(),
            final(self).active == old(self).active,
            final(self).stack == old(self).stack,
            final(self).queued == old(self).queued,
            final(self).top == old(self).top,
            final(self).callers == old(self).callers,
            r is Ok <==> params <= old(self).stack@.len(),
            r is Ok ==> final(self).ctrls@ == old(self).ctrls@.push(
                Ctrl { target, arity, height: (old(self).stack@.len() - params) as usize },
            ),
            r is Err ==> final(self).ctrls == old(self).ctrls,
    {
        if self.stack.len() < params {
            return Err(fault());
        }
        let height = self.stack.len() - params;
        self.ctrls.push(Ctrl { target, arity, height });
        Ok(())
    }

    /// Branches to relative depth `d` within the running frame. `None`
    /// means that the branch left the function.
    pub fn do_branch(&mut self, d: u32) -> (r: Result<Option<usize>, Trap>)
        requires
            old(self).wf(),
            old(self).active,
        ensures
            final(self).wf(),
            final(self).depth() <= old(self).depth(),
            final(self).queued == old(self).queued,
            (r matches Ok(Some(_))) ==> final(self).active && final(self).depth() == old(self).depth(),
            (r matches Ok(Some(_))) ==> {
                let idx = old(self).ctrls@.len() - 1 - d;
                let c = old(self).ctrls@[idx];
                &&& final(self).stack@ == unwind(old(self).stack@, c.height as int, c.arity as int)
                &&& final(self).ctrls@ == old(self).ctrls@.take(idx)
                &&& r == Ok::<Option<usize>, Trap>(Some(c.target))
                &&& idx != old(self).top.ctrl_base
            },
            (r matches Ok(None)) ==> returned_by_branch(old(self).ctrls@, old(self).top, old(self).stack@, *final(self), d)
                && final(self).depth() + 1 == old(self).depth(),
            r is Err <==> branch_fails(*old(self), d),
            r matches Err(t) ==> t.msg@ == "invalid machine state"@,
            r is Ok ==> ((r matches Ok(None)) <==> old(self).ctrls@.len() - 1 - d == old(self).top.ctrl_base),
            (r matches Ok(None)) ==> {
                &&& final(self).ctrls@ == old(self).ctrls@.take(old(self).top.ctrl_base as int)
                &&& if old(self).callers@.len() > 0 {
                    &&& final(self).active
                    &&& final(self).top == old(self).callers@.last()
                    &&& final(self).callers@ == old(self).callers@.drop_last()
                } else {
                    &&& !final(self).active
                    &&& final(self).top == old(self).top
                    &&& final(self).callers@ == old(self).callers@
                }
            },
    {
        if (d as usize) >= self.ctrls.len() {
            return Err(fault());
        }
        let idx = self.ctrls.len() - 1 - d as usize;
        let target_is_function = idx == self.top.ctrl_base;
        let arity = self.ctrls[idx].arity;
        let height = self.ctrls[idx].height;
        let target = self.ctrls[idx].target;
        if self.stack.len() < arity {
            return Err(fault());
        }
        let at = self.stack.len() - arity;
        let mut keep = self.stack.split_off(at);
        self.stack.truncate(height);
        self.stack.append(&mut keep);
        proof {
            assert(self.stack@ =~= unwind(old(self).stack@, height as int, arity as int));
        }
        self.ctrls.truncate(idx);
        assert(self.ctrls@ =~= old(self).ctrls@.take(idx as int));
        if target_is_function {
            // Function return via branch.
            self.pop_frame()?;
            return Ok(None);
        }
        Ok(Some(target))
    }


    /// A numeric operator. Integer and bit-pattern operators are evaluated
    /// here; floating-point ones are handed to the embedder with their operands.
    pub fn exec_num(&mut self, op: NumOp) -> (r: Result<Flow, Trap>)
        ensures
            r matches Ok(Flow::Yield(e)) ==> e is Float,
            r is Ok ==> (r matches Ok(Flow::Next)) || (r matches Ok(Flow::Yield(_))),
            final(self).callers == old(self).callers,
            final(self).top == old(self).top,
            final(self).active == old(self).active,
            final(self).ctrls == old(self).ctrls,
            final(self).queued == old(self).queued,
            num_effect(*old(self), *final(self), op, r),
    {
        let k = num_arity_exec(op);
        if needs_float(op) {
            let args = self.pop_n(k)?;
            return Ok(Flow::Yield(Event::Float { op, args }));
        }
        let args = self.pop_n(k)?;
        let a = args[0];
        let b = args[k - 1];
        let t = operand_type_exec(op);
        if a.ty() != t || (k == 2 && b.ty() != t) {
            return Err(fault());
        }
        match eval_int(op, a, b) {
            Ok(v) => {
                self.push(v);
                Ok(Flow::Next)
            },
            Err(e) => Err(int_trap(e)),
        }
    }


    // ---- store lookups for the running instance ----
    fn inst_index(&self, store: &Store) -> (r: Result<usize, Trap>)
        ensures
            r is Ok ==> r->Ok_0 == self.top.inst && r->Ok_0 < store.instances@.len(),
            r is Ok <==> self.top.inst < store.instances@.len(),
    {
        let i = self.top.inst;
        if i < store.instances.len() { Ok(i) } else { Err(fault()) }
    }

    fn func_at(&self, store: &Store, idx: u32) -> (r: Result<usize, Trap>)
        ensures
            r is Ok ==> r->Ok_0 < store.funcs@.len(),
            r is Ok <==> func_addr(*store, self.top.inst as int, idx) is Some,
            r is Ok ==> func_addr(*store, self.top.inst as int, idx) == Some(r->Ok_0 as int),
    {
        let i = self.inst_index(store)?;
        let addrs = &store.instances[i].func_addrs;
        if (idx as usize) < addrs.len() && addrs[idx as usize] < store.funcs.len() {
            Ok(addrs[idx as usize])
        } else {
            Err(fault())
        }
    }

    fn table_at(&self, store: &Store, idx: u32) -> (r: Result<usize, Trap>)
        ensures
            r is Ok ==> r->Ok_0 < store.tables@.len(),
            r is Ok <==> table_addr(*store, self.top.inst as int, idx) is Some,
            r is Ok ==> table_addr(*store, self.top.inst as int, idx) == Some(r->Ok_0 as int),
    {
        let i = self.inst_index(store)?;
        let addrs = &store.instances[i].table_addrs;
        if (idx as usize) < addrs.len() && addrs[idx as usize] < store.tables.len() {
            Ok(addrs[idx as usize])
        } else {
            Err(fault())
        }
    }

    fn global_at(&self, store: &Store, idx: u32) -> (r: Result<usize, Trap>)
        ensures
            r is Ok ==> r->Ok_0 < store.globals@.len(),
            r is Ok <==> global_addr(*store, self.top.inst as int, idx) is Some,
            r is Ok ==> global_addr(*store, self.top.inst as int, idx) == Some(r->Ok_0 as int),
    {
        let i = self.inst_index(store)?;
        let addrs = &store.instances[i].global_addrs;
        if (idx as usize) < addrs.len() && addrs[idx as usize] < store.globals.len() {
            Ok(addrs[idx as usize])
        } else {
            Err(fault())
        }
    }

    /// Calls the function at store address `addr`: a host function is
    /// handed to the embedder with its arguments, a module function gets a frame.
    pub fn call(&mut self, store: &Store, addr: usize) -> (r: Result<Flow, Trap>)
        requires
            old(self).wf(),
        ensures
            final(self).wf(),
            final(self).active == old(self).active || (r is Ok && final(self).active),
            final(self).queued == old(self).queued,
            old(self).depth() >= MAX_CALL_DEPTH && addr < store.funcs@.len() && store.funcs@[addr as int] is Wasm
                ==> r is Err && r->Err_0.msg@ == "call stack exhausted"@,
            r matches Ok(Flow::Yield(e)) ==> e is Host,
            r is Ok ==> (r matches Ok(Flow::Next)) || (r matches Ok(Flow::Yield(_))),
            addr < store.funcs@.len() ==> call_effect(*store, *old(self), *final(self), old(self).stack@, addr as int, r),
    {
        if addr >= store.funcs.len() {
            return Err(fault());
        }
        match &store.funcs[addr] {
            FuncInst::Host { ty, id } => {
                let n = ty.params.len();
                let args = self.pop_n(n)?;
                Ok(Flow::Yield(Event::Host { id: *id, args }))
            },
            FuncInst::Wasm { .. } => {
                self.push_frame(store, addr)?;
                Ok(Flow::Next)
            },
        }
    }

    /// Structured control and calls.
    fn step_control(&mut self, store: &Store, instr: &Instr, pc: usize) -> (r: Result<Flow, Trap>)
        requires
            old(self).wf(),
            old(self).active,
        ensures
            final(self).wf(),
            final(self).queued == old(self).queued,
            (r matches Ok(Flow::Next)) || (r matches Ok(Flow::Jump(_))) ==> final(self).active,
            r matches Ok(Flow::Yield(e)) ==> e is Host,
            control_effect(*store, *old(self), *final(self), *instr, pc, r),
    {
        match instr {
            Instr::Block { bt, end } => {
                let (params, results) = self.block_arity(store, *bt)?;
                self.enter(*end as usize, params, results)?;
                Ok(Flow::Next)
            },
            Instr::Loop { bt, .. } => {
                let (params, _results) = self.block_arity(store, *bt)?;
                self.enter(pc, params, params)?;
                Ok(Flow::Next)
            },
            Instr::If { bt, else_, end } => {
                let cond = self.pop_u32()?;
                let (params, results) = self.block_arity(store, *bt)?;
                if cond != 0 {
                    self.enter(*end as usize, params, results)?;
                    Ok(Flow::Next)
                } else if *else_ == *end {
                    // No else arm: skip the whole construct.
                    Ok(Flow::Jump(*end as usize))
                } else {
                    self.enter(*end as usize, params, results)?;
                    Ok(Flow::Jump(*else_ as usize))
                }
            },
            Instr::Else { end } => {
                // Fell off the true arm: exit the construct.
                if self.ctrls.len() <= self.top.ctrl_base {
                    return Err(fault());
                }
                self.ctrls.pop();
                Ok(Flow::Jump(*end as usize))
            },
            Instr::End => {
                if self.ctrls.len() <= self.top.ctrl_base {
                    return Err(fault());
                }
                self.ctrls.pop();
                Ok(Flow::Next)
            },
            Instr::Br { depth } => {
                match self.do_branch(*depth)? {
                    Some(t) => Ok(Flow::Jump(t)),
                    None => Ok(Flow::Returned),
                }
            },
            Instr::BrIf { depth } => {
                if self.pop_u32()? != 0 {
                    match self.do_branch(*depth)? {
                        Some(t) => Ok(Flow::Jump(t)),
                        None => Ok(Flow::Returned),
                    }
                } else {
                    Ok(Flow::Next)
                }
            },
            Instr::BrTable { depths, default } => {
                let i = self.pop_u32()?;
                let d = if (i as usize) < depths.len() { depths[i as usize] } else { *default };
                match self.do_branch(d)? {
                    Some(t) => Ok(Flow::Jump(t)),
                    None => Ok(Flow::Returned),
                }
            },
            Instr::Return => {
                self.pop_frame()?;
                Ok(Flow::Returned)
            },
            Instr::Call { func } => {
                let addr = self.func_at(store, *func)?;
                self.call(store, addr)
            },
            Instr::CallIndirect { table, ty } => {
                let i = self.pop_u32()?;
                let inst = self.inst_index(store)?;
                let taddr = self.table_at(store, *table)?;
                let tbl = &store.tables[taddr];
                if (i as usize) >= tbl.elems.len() {
                    return Err(trap("undefined element"));
                }
                let addr = match tbl.elems[i as usize] {
                    Value::FuncRef(Some(a)) => a as usize,
                    Value::FuncRef(None) => {
                        return Err(trap("uninitialized element"));
                    },
                    _ => {
                        return Err(fault());
                    },
                };
                let types = &store.instances[inst].types;
                if (*ty as usize) >= types.len() || addr >= store.funcs.len() {
                    return Err(fault());
                }
                if !store.funcs[addr].ty().same(&types[*ty as usize]) {
                    return Err(trap("indirect call type mismatch"));
                }
                self.call(store, addr)
            },
            _ => Err(fault()),
        }
    }

    /// Parametric and variable instructions.
    pub fn step_variable(&mut self, store: &mut Store, instr: &Instr) -> (r: Result<Flow, Trap>)
        requires
            old(self).wf(),
            old(self).active,
        ensures
            final(self).wf(),
            final(self).active,
            final(self).queued == old(self).queued,
            final(self).depth() == old(self).depth(),
            final(self).callers == old(self).callers,
            final(self).ctrls == old(self).ctrls,
            r is Ok ==> r == Ok::<Flow, Trap>(Flow::Next),
            variable_effect(*old(self), *final(self), *instr, r),
            global_effect(*old(store), *final(store), *old(self), *final(self), *instr, r),
            final(store).funcs == old(store).funcs,
            final(store).tables == old(store).tables,
            final(store).mems == old(store).mems,
            final(store).instances == old(store).instances,
    {
        let ghost s0 = self.stack@;
        match instr {
            Instr::Drop => {
                self.pop()?;
            },
            Instr::Select { .. } | Instr::SelectT { .. } => {
                let c = self.pop_u32()?;
                let b = self.pop()?;
                let a = self.pop()?;
                proof {
                    let n = s0.len();
                    assert(s0.drop_last().drop_last().drop_last() =~= s0.take(n - 3));
                    assert(b == s0[n - 2]);
                    assert(a == s0[n - 3]);
                }
                self.push(if c != 0 { a } else { b });
            },
            Instr::LocalGet { idx } => {
                if (*idx as usize) >= self.top.locals.len() {
                    return Err(fault());
                }
                let v = self.top.locals[*idx as usize];
                self.push(v);
            },
            Instr::LocalSet { idx } => {
                let v = self.pop()?;
                if (*idx as usize) >= self.top.locals.len() {
                    return Err(fault());
                }
                self.top.locals.set(*idx as usize, v);
            },
            Instr::LocalTee { idx } => {
                let n = self.stack.len();
                if n == 0 || (*idx as usize) >= self.top.locals.len() {
                    return Err(fault());
                }
                let v = self.stack[n - 1];
                self.top.locals.set(*idx as usize, v);
            },
            Instr::GlobalGet { idx } => {
                let a = self.global_at(store, *idx)?;
                let v = store.globals[a].val;
                self.push(v);
            },
            Instr::GlobalSet { idx } => {
                let a = self.global_at(store, *idx)?;
                let v = self.pop()?;
                store.globals[a].val = v;
            },
            _ => {
                return Err(fault());
            },
        }
        Ok(Flow::Next)
    }


    /// Table and element-segment instructions.
    fn step_table(&mut self, store: &mut Store, instr: &Instr) -> (r: Result<Flow, Trap>)
        requires
            old(self).wf(),
            old(self).active,
        ensures
            final(self).wf(),
            final(self).active,
            final(self).queued == old(self).queued,
            final(self).depth() == old(self).depth(),
            r is Ok ==> r == Ok::<Flow, Trap>(Flow::Next),
            final(store).funcs == old(store).funcs,
            table_effect(*old(store), *final(store), *old(self), *final(self), *instr, r),
    {
        let ghost s0 = self.stack@;
        let ghost k = s0.len() as int;
        match instr {
            Instr::TableGet { table } => {
                let a = self.table_at(store, *table)?;
                let i = self.pop_u32()?;
                if (i as usize) < store.tables[a].elems.len() {
                    let v = store.tables[a].elems[i as usize];
                    self.push(v);
                } else {
                    return Err(trap("out of bounds table access"));
                }
            },
            Instr::TableSet { table } => {
                let a = self.table_at(store, *table)?;
                let v = self.pop()?;
                let i = self.pop_u32()?;
                proof {
                    assert(s0.drop_last().drop_last() =~= s0.take(k - 2));
                }
                if (i as usize) < store.tables[a].elems.len() {
                    store.tables[a].elems.set(i as usize, v);
                } else {
                    return Err(trap("out of bounds table access"));
                }
            },
            Instr::TableInit { table, elem } => {
                let inst = self.inst_index(store)?;
                let ta = self.table_at(store, *table)?;
                let n = self.pop_u32()?;
                let s = self.pop_u32()?;
                let d = self.pop_u32()?;
                proof {
                    assert(s0.drop_last().drop_last().drop_last() =~= s0.take(k - 3));
                }
                if (*elem as usize) >= store.instances[inst].elems.len() {
                    return Err(fault());
                }
                let seg_len = store.instances[inst].elems[*elem as usize].elems.len();
                if s as u64 + n as u64 > seg_len as u64 || d as u64 + n as u64 > store.tables[ta].elems.len() as u64 {
                    return Err(trap("out of bounds table access"));
                }
                let src = copy_range(&store.instances[inst].elems[*elem as usize].elems, s as usize, n as usize);
                write_range(&mut store.tables[ta].elems, d as usize, &src);
            },
            Instr::ElemDrop { elem } => {
                let inst = self.inst_index(store)?;
                if (*elem as usize) >= store.instances[inst].elems.len() {
                    return Err(fault());
                }
                store.instances[inst].elems[*elem as usize].elems.clear();
            },
            Instr::TableCopy { dst, src } => {
                let da = self.table_at(store, *dst)?;
                let sa = self.table_at(store, *src)?;
                let n = self.pop_u32()?;
                let s = self.pop_u32()?;
                let d = self.pop_u32()?;
                proof {
                    assert(s0.drop_last().drop_last().drop_last() =~= s0.take(k - 3));
                }
                if s as u64 + n as u64 > store.tables[sa].elems.len() as u64
                    || d as u64 + n as u64 > store.tables[da].elems.len() as u64 {
                    return Err(trap("out of bounds table access"));
                }
                let chunk = copy_range(&store.tables[sa].elems, s as usize, n as usize);
                write_range(&mut store.tables[da].elems, d as usize, &chunk);
            },
            Instr::TableGrow { table } => {
                let a = self.table_at(store, *table)?;
                let n = self.pop_u32()?;
                let v = self.pop()?;
                let r = grow_table(store, a, n, v);
                self.push(Value::I32(r));
                proof {
                    assert(self.stack@.drop_last() =~= s0.take(k - 2));
                    assert(s0.drop_last().last() == s0[k - 2]);
                }
            },
            Instr::TableSize { table } => {
                let a = self.table_at(store, *table)?;
                let len = store.tables[a].elems.len();
                if len > u32::MAX as usize {
                    return Err(fault());
                }
                self.push(Value::I32(len as u32));
            },
            Instr::TableFill { table } => {
                let a = self.table_at(store, *table)?;
                let n = self.pop_u32()?;
                let v = self.pop()?;
                let i = self.pop_u32()?;
                proof {
                    assert(s0.drop_last().drop_last().drop_last() =~= s0.take(k - 3));
                }
                if i as u64 + n as u64 > store.tables[a].elems.len() as u64 {
                    return Err(trap("out of bounds table access"));
                }
                fill_range(&mut store.tables[a].elems, i as usize, n as usize, v);
            },
            _ => {
                return Err(fault());
            },
        }
        Ok(Flow::Next)
    }

    /// Memory and data-segment instructions.
    fn step_memory(&mut self, store: &mut Store, instr: &Instr) -> (r: Result<Flow, Trap>)
        requires
            old(self).wf(),
            old(self).active,
        ensures
            final(self).top == old(self).top,
            final(self).callers == old(self).callers,
            final(self).ctrls == old(self).ctrls,
            *instr matches Instr::Load { op, offset, .. } ==> load_effect(*old(store), *old(self), *final(self), op, offset, r),
            *instr matches Instr::Store { op, offset, .. } ==> store_effect(*old(store), *final(store), *old(self), *final(self), op, offset, r),
            final(self).wf(),
            final(self).active,
            final(self).queued == old(self).queued,
            final(self).depth() == old(self).depth(),
            r is Ok ==> r == Ok::<Flow, Trap>(Flow::Next),
            final(store).funcs == old(store).funcs,
            memory_effect(*old(store), *final(store), *old(self), *final(self), *instr, r),
            r is Err ==> final(store).mems == old(store).mems,
    {
        let ghost s0 = self.stack@;
        let ghost k = s0.len() as int;
        match instr {
            Instr::Load { op, offset, .. } => {
                let w = load_width_exec(*op);
                let raw = self.mem_load(store, *offset, w)?;
                self.push(loaded_exec(*op, raw));
            },
            Instr::Store { op, offset, .. } => {
                let ghost s0 = self.stack@;
                let v = self.pop()?;
                if v.ty() != store_operand_exec(*op) {
                    return Err(fault());
                }
                let w = store_width_exec(*op);
                let res = self.mem_store(store, *offset, value_bits_exec(v), w);
                proof {
                    if s0.len() >= 2 {
                        assert(s0.drop_last().last() == s0[s0.len() - 2]);
                        assert(s0.drop_last().drop_last() =~= s0.take(s0.len() - 2));
                    }
                }
                res?;
            },
            Instr::MemorySize => {
                let a = self.mem_addr(store)?;
                let pages = store.mems[a].data.len() / PAGE_SIZE;
                if pages > u32::MAX as usize {
                    return Err(fault());
                }
                self.push(Value::I32(pages as u32));
            },
            Instr::MemoryGrow => {
                let a = self.mem_addr(store)?;
                let n = self.pop_u32()?;
                if store.mems[a].data.len() as u64 > 4294967296u64 {
                    return Err(fault());
                }
                let r = grow_memory(store, a, n);
                self.push(Value::I32(r));
                assert(self.stack@.drop_last() =~= s0.drop_last());
            },
            Instr::MemoryInit { data } => {
                let inst = self.inst_index(store)?;
                let a = self.mem_addr(store)?;
                let n = self.pop_u32()?;
                let s = self.pop_u32()?;
                let d = self.pop_u32()?;
                proof {
                    assert(s0.drop_last().drop_last().drop_last() =~= s0.take(k - 3));
                }
                if (*data as usize) >= store.instances[inst].datas.len() {
                    return Err(fault());
                }
                let seg_len = store.instances[inst].datas[*data as usize].bytes.len();
                if s as u64 + n as u64 > seg_len as u64 || d as u64 + n as u64 > store.mems[a].data.len() as u64 {
                    return Err(trap("out of bounds memory access"));
                }
                let chunk = copy_range(&store.instances[inst].datas[*data as usize].bytes, s as usize, n as usize);
                write_range(&mut store.mems[a].data, d as usize, &chunk);
            },
            Instr::DataDrop { data } => {
                let inst = self.inst_index(store)?;
                if (*data as usize) >= store.instances[inst].datas.len() {
                    return Err(fault());
                }
                store.instances[inst].datas[*data as usize].bytes.clear();
            },
            Instr::MemoryCopy => {
                let a = self.mem_addr(store)?;
                let n = self.pop_u32()?;
                let s = self.pop_u32()?;
                let d = self.pop_u32()?;
                proof {
                    assert(s0.drop_last().drop_last().drop_last() =~= s0.take(k - 3));
                }
                let len = store.mems[a].data.len();
                if s as u64 + n as u64 > len as u64 || d as u64 + n as u64 > len as u64 {
                    return Err(trap("out of bounds memory access"));
                }
                let chunk = copy_range(&store.mems[a].data, s as usize, n as usize);
                write_range(&mut store.mems[a].data, d as usize, &chunk);
            },
            Instr::MemoryFill => {
                let a = self.mem_addr(store)?;
                let n = self.pop_u32()?;
                let v = self.pop_u32()?;
                let d = self.pop_u32()?;
                proof {
                    assert(s0.drop_last().drop_last().drop_last() =~= s0.take(k - 3));
                }
                if d as u64 + n as u64 > store.mems[a].data.len() as u64 {
                    return Err(trap("out of bounds memory access"));
                }
                fill_range(&mut store.mems[a].data, d as usize, n as usize, (v % 256) as u8);
            },
            _ => {
                return Err(fault());
            },
        }
        Ok(Flow::Next)
    }

    /// Constants and reference instructions.
    fn step_const(&mut self, store: &Store, instr: &Instr) -> (r: Result<Flow, Trap>)
        requires
            old(self).wf(),
            old(self).active,
        ensures
            final(self).wf(),
            final(self).active,
            final(self).queued == old(self).queued,
            final(self).depth() == old(self).depth(),
            r is Ok ==> r == Ok::<Flow, Trap>(Flow::Next),
            const_effect(*store, *old(self), *final(self), *instr, r),
    {
        match instr {
            Instr::I32Const(v) => self.push(Value::I32(*v)),
            Instr::I64Const(v) => self.push(Value::I64(*v)),
            Instr::F32Const(v) => self.push(Value::F32(*v)),
            Instr::F64Const(v) => self.push(Value::F64(*v)),
            Instr::V128Const(v) => self.push(Value::V128(*v)),
            Instr::RefNull(t) => self.push(Value::null_of(*t)),
            Instr::RefIsNull => {
                let v = self.pop()?;
                let is_null = match v {
                    Value::FuncRef(None) | Value::ExternRef(None) => true,
                    _ => false,
                };
                self.push_bool(is_null);
            },
            Instr::RefFunc { func } => {
                let addr = self.func_at(store, *func)?;
                if addr > u32::MAX as usize {
                    return Err(fault());
                }
                self.push(Value::FuncRef(Some(addr as u32)));
            },
            _ => {
                return Err(fault());
            },
        }
        Ok(Flow::Next)
    }


    /// Executes one instruction of the running frame (whose pc already
    /// points past it).
    pub fn step(&mut self, store: &mut Store, instr: &Instr, pc: usize) -> (r: Result<Flow, Trap>)
        requires
            old(self).wf(),
            old(self).active,
        ensures
            final(self).wf(),
            step_post(*old(store), *final(store), *old(self), *final(self), *instr, pc, r),
    {
        match instr {
            Instr::Unreachable => Err(trap("unreachable")),
            Instr::Nop => Ok(Flow::Next),
            Instr::Block { .. } | Instr::Loop { .. } | Instr::If { .. } | Instr::Else { .. }
            | Instr::End | Instr::Br { .. } | Instr::BrIf { .. } | Instr::BrTable { .. }
            | Instr::Return | Instr::Call { .. } | Instr::CallIndirect { .. } => {
                self.step_control(store, instr, pc)
            },
            Instr::Drop | Instr::Select { .. } | Instr::SelectT { .. } | Instr::LocalGet { .. }
            | Instr::LocalSet { .. } | Instr::LocalTee { .. } | Instr::GlobalGet { .. }
            | Instr::GlobalSet { .. } => self.step_variable(store, instr),
            Instr::TableGet { .. } | Instr::TableSet { .. } | Instr::TableInit { .. }
            | Instr::ElemDrop { .. } | Instr::TableCopy { .. } | Instr::TableGrow { .. }
            | Instr::TableSize { .. } | Instr::TableFill { .. } => self.step_table(store, instr),
            Instr::Load { .. } | Instr::Store { .. } | Instr::MemorySize | Instr::MemoryGrow
            | Instr::MemoryInit { .. } | Instr::DataDrop { .. } | Instr::MemoryCopy
            | Instr::MemoryFill => self.step_memory(store, instr),
            Instr::I32Const(_) | Instr::I64Const(_) | Instr::F32Const(_) | Instr::F64Const(_)
            | Instr::V128Const(_) | Instr::RefNull(_) | Instr::RefIsNull | Instr::RefFunc { .. } => {
                self.step_const(store, instr)
            },
            Instr::Num(op) => self.exec_num(*op),
            Instr::Simd(op) => crate::simd::simd_op(self, *op),
            Instr::SimdLane { op, lane } => crate::simd::simd_lane(self, *op, *lane),
            Instr::Shuffle(lanes) => crate::simd::shuffle(self, lanes),
            Instr::SimdMem { op, offset, lane, .. } => crate::simd::simd_mem(self, store, *op, *offset, *lane),
        }
    }

    /// One round of the run loop: reports the end of the invocation, returns
    /// from a frame whose body is done, or steps the next instruction.
    pub fn tick(&mut self, store: &mut Store) -> (out: Option<Event>)
        requires
            old(self).wf(),
        ensures
            final(self).wf(),
            final(self).queued == old(self).queued,
            tick_post(*old(self), *old(store), *final(self), *final(store), out),
    {
        if !self.active {
            let mut out: Vec<Value> = Vec::new();
            std::mem::swap(&mut out, &mut self.stack);
            return Some(Event::Done(out));
        }
        let pc = self.top.pc;
        let code = share(&self.top.code);
        if pc >= code.body.len() {
            // Implicit end of the function body.
            match self.pop_frame() {
                Ok(()) => None,
                Err(t) => Some(Event::Trapped(t)),
            }
        } else {
            self.top.pc = pc + 1;
            let ghost m_next = *self;
            assert(m_next == at_pc(*old(self), (pc + 1) as usize));
            let instr = &code.body[pc];
            let r = self.step(store, instr, pc);
            let ghost m_stepped = *self;
            let out = match r {
                Err(t) => Some(Event::Trapped(t)),
                Ok(Flow::Next) => None,
                Ok(Flow::Jump(t)) => {
                    self.top.pc = t;
                    assert(*self == at_pc(m_stepped, t));
                    None
                },
                Ok(Flow::Returned) => None,
                Ok(Flow::Yield(e)) => Some(e),
            };
            assert(step_post(*old(store), *store, at_pc(*old(self), (pc + 1) as usize), m_stepped, old(self).top.code.body@[pc as int], pc, r));
            out
        }
    }

    /// Runs for at most `fuel` instructions, until the invocation ends, traps
    /// or needs the embedder.
    pub fn run(&mut self, store: &mut Store, fuel: u64) -> (e: Event)
        requires
            old(self).wf(),
        ensures
            final(self).wf(),
            final(self).queued is None,
            e is Done ==> final(self).depth() == 0,
            old(self).queued is Some ==> (e matches Event::Host { id, args } && ({
                let q = old(self).queued->0;
                id == q.0 && args == q.1
            })),
            old(self).queued is Some ==> *final(store) == *old(store),
            old(self).queued is None ==> exists|ms: Seq<Machine>, ss: Seq<Store>| {
                &&& #[trigger] ran(ms, ss, fuel as nat, e)
                &&& ms[0] == *old(self)
                &&& ss[0] == *old(store)
                &&& ms.last() == *final(self)
                &&& ss.last() == *final(store)
            },
    {
        let mut q: Option<(usize, Vec<Value>)> = None;
        std::mem::swap(&mut q, &mut self.queued);
        match q {
            Some((id, args)) => {
                return Event::Host { id, args };
            },
            None => {},
        }
        assert(*self == *old(self));
        let ghost mut ms: Seq<Machine> = seq![*self];
        let ghost mut ss: Seq<Store> = seq![*store];
        let mut left = fuel;
        while left > 0
            invariant
                self.wf(),
                self.queued is None,
                old(self).queued is None,
                left <= fuel,
                ms.len() == fuel - left + 1,
                ss.len() == ms.len(),
                ms[0] == *old(self),
                ss[0] == *old(store),
                ms.last() == *self,
                ss.last() == *store,
                forall|i: int| 0 <= i < ms.len() - 1 ==> #[trigger] round(ms, ss, i),
            decreases left,
        {
            left = left - 1;
            let out = self.tick(store);
            proof {
                let ms0 = ms;
                let ss0 = ss;
                ms = ms.push(*self);
                ss = ss.push(*store);
                assert forall|i: int| 0 <= i < ms.len() - 2 implies #[trigger] round(ms, ss, i) by {
                    assert(round(ms0, ss0, i));
                    assert(ms[i] == ms0[i] && ms[i + 1] == ms0[i + 1]);
                    assert(ss[i] == ss0[i] && ss[i + 1] == ss0[i + 1]);
                }
                assert(ms[ms.len() - 2] == ms0.last() && ss[ss.len() - 2] == ss0.last());
            }
            match out {
                Some(e) => {
                    assert(ran(ms, ss, fuel as nat, e));
                    return e;
                },
                None => {
                    assert(round(ms, ss, ms.len() - 2));
                },
            }
        }
        assert(ran(ms, ss, fuel as nat, Event::Paused));
        Event::Paused
    }

    // ---- memory helpers ----
    /// The store address of memory 0 of the running instance.
    pub fn mem_addr(&self, store: &Store) -> (r: Result<usize, Trap>)
        ensures
            r is Ok <==> mem0_ok(*store, self.top.inst as int),
            r is Ok ==> r->Ok_0 == mem0(*store, self.top.inst as int),
    {
        let inst = self.top.inst;
        if inst >= store.instances.len() || store.instances[inst].mem_addrs.len() == 0 {
            return Err(fault());
        }
        let a = store.instances[inst].mem_addrs[0];
        if a >= store.mems.len() {
            return Err(fault());
        }
        Ok(a)
    }

    /// Pops the base address, applies `offset`, and loads `width` bytes,
    /// returned as a little-endian number.
    pub fn mem_load(&mut self, store: &Store, offset: u32, width: usize) -> (r: Result<u128, Trap>)
        requires
            width <= 16,
        ensures
            final(self).callers == old(self).callers,
            final(self).top == old(self).top,
            final(self).active == old(self).active,
            final(self).ctrls == old(self).ctrls,
            final(self).queued == old(self).queued,
            ({
                let s = old(self).stack@;
                let i = old(self).top.inst as int;
                &&& r is Ok ==> s.len() > 0 && s.last() is I32 && mem0_ok(*store, i)
                    && final(self).stack@ == s.drop_last()
                    && load_at(store.mems@[mem0(*store, i)].data@, s.last()->I32_0 + offset, width as int)
                        == Some(r->Ok_0 as nat)
                &&& (s.len() > 0 && s.last() is I32 && mem0_ok(*store, i)) ==> (r is Err <==> load_at(
                    store.mems@[mem0(*store, i)].data@, s.last()->I32_0 + offset, width as int) is None)
                &&& (s.len() > 0 && s.last() is I32 && mem0_ok(*store, i) && r is Err) ==> r->Err_0.msg@
                    == "out of bounds memory access"@
            }),
    {
        let base = self.pop_u32()?;
        let a = self.mem_addr(store)?;
        let data = &store.mems[a].data;
        let ea: u64 = base as u64 + offset as u64;
        if ea + width as u64 > data.len() as u64 {
            return Err(trap("out of bounds memory access"));
        }
        let v = read_le(data, ea as usize, width);
        assert(load_at(store.mems@[a as int].data@, base + offset, width as int) == Some(v as nat));
        Ok(v)
    }

    /// Pops the base address, applies `offset`, and stores the `width`
    /// little-endian bytes of `v`.
    pub fn mem_store(&mut self, store: &mut Store, offset: u32, v: u128, width: usize) -> (r: Result<(), Trap>)
        requires
            width <= 16,
        ensures
            final(self).callers == old(self).callers,
            final(self).top == old(self).top,
            final(self).active == old(self).active,
            final(self).ctrls == old(self).ctrls,
            final(self).queued == old(self).queued,
            final(store).mems@.len() == old(store).mems@.len(),
            final(store).funcs == old(store).funcs,
            final(store).instances == old(store).instances,
            final(store).tables == old(store).tables,
            final(store).globals == old(store).globals,
            ({
                let s = old(self).stack@;
                let i = old(self).top.inst as int;
                let a = mem0(*old(store), i);
                &&& r is Ok ==> s.len() > 0 && s.last() is I32 && mem0_ok(*old(store), i)
                    && final(self).stack@ == s.drop_last()
                    && s.last()->I32_0 + offset + width <= old(store).mems@[a].data@.len()
                    && final(store).mems@[a].data@ == written(old(store).mems@[a].data@, s.last()->I32_0 + offset, le_seq(v as nat, width as nat))
                    && final(store).mems@[a].ty == old(store).mems@[a].ty
                    && forall|j: int| 0 <= j < old(store).mems@.len() && j != a ==> #[trigger] final(store).mems@[j] == old(store).mems@[j]
                &&& r is Err ==> final(store).mems == old(store).mems
                &&& (s.len() > 0 && s.last() is I32 && mem0_ok(*old(store), i)) ==> (r is Err <==> s.last()->I32_0 + offset + width > old(store).mems@[a].data@.len())
                &&& (s.len() > 0 && s.last() is I32 && mem0_ok(*old(store), i) && r is Err) ==> r->Err_0.msg@
                    == "out of bounds memory access"@
            }),
    {
        let base = self.pop_u32()?;
        let a = self.mem_addr(store)?;
        let ea: u64 = base as u64 + offset as u64;
        if ea + width as u64 > store.mems[a].data.len() as u64 {
            return Err(trap("out of bounds memory access"));
        }
        write_le(&mut store.mems[a].data, ea as usize, v, width);
        Ok(())
    }
}

} // verus!
