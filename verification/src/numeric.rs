//! Integer and bit-pattern numeric operators. Floating-point arithmetic
//! is not evaluated here: `needs_float` names the operators whose result
//! depends on IEEE-754 arithmetic.
use vstd::prelude::*;
use vstd::std_specs::bits::{u32_leading_zeros, u32_trailing_zeros, u64_leading_zeros, u64_trailing_zeros};
use crate::module::NumOp;
use crate::types::ValType;
use crate::values::{Value, value_type};

verus! {

/// Why an integer operator trapped.
#[derive(Clone, Copy, Debug, PartialEq, Eq, Structural)]
pub enum IntTrap {
    DivideByZero,
    Overflow,
}

/// The operators whose result depends on floating-point arithmetic
/// (comparisons, rounding, arithmetic, conversions).
pub open spec fn float_op(op: NumOp) -> bool {
    match op {
        NumOp::F32Eq | NumOp::F32Ne | NumOp::F32Lt | NumOp::F32Gt | NumOp::F32Le | NumOp::F32Ge
        | NumOp::F64Eq | NumOp::F64Ne | NumOp::F64Lt | NumOp::F64Gt | NumOp::F64Le | NumOp::F64Ge
        | NumOp::F32Ceil | NumOp::F32Floor | NumOp::F32Trunc | NumOp::F32Nearest | NumOp::F32Sqrt
        | NumOp::F32Add | NumOp::F32Sub | NumOp::F32Mul | NumOp::F32Div | NumOp::F32Min | NumOp::F32Max
        | NumOp::F64Ceil | NumOp::F64Floor | NumOp::F64Trunc | NumOp::F64Nearest | NumOp::F64Sqrt
        | NumOp::F64Add | NumOp::F64Sub | NumOp::F64Mul | NumOp::F64Div | NumOp::F64Min | NumOp::F64Max
        | NumOp::I32TruncF32S | NumOp::I32TruncF32U | NumOp::I32TruncF64S | NumOp::I32TruncF64U
        | NumOp::I64TruncF32S | NumOp::I64TruncF32U | NumOp::I64TruncF64S | NumOp::I64TruncF64U
        | NumOp::F32ConvertI32S | NumOp::F32ConvertI32U | NumOp::F32ConvertI64S | NumOp::F32ConvertI64U
        | NumOp::F32DemoteF64 | NumOp::F64ConvertI32S | NumOp::F64ConvertI32U | NumOp::F64ConvertI64S
        | NumOp::F64ConvertI64U | NumOp::F64PromoteF32
        | NumOp::I32TruncSatF32S | NumOp::I32TruncSatF32U | NumOp::I32TruncSatF64S | NumOp::I32TruncSatF64U
        | NumOp::I64TruncSatF32S | NumOp::I64TruncSatF32U | NumOp::I64TruncSatF64S | NumOp::I64TruncSatF64U => true,
        _ => false,
    }
}

/// Whether `op` depends on floating-point arithmetic.
pub fn needs_float(op: NumOp) -> (r: bool)
    ensures
        r == float_op(op),
{
    match op {
        NumOp::F32Eq | NumOp::F32Ne | NumOp::F32Lt | NumOp::F32Gt | NumOp::F32Le | NumOp::F32Ge
        | NumOp::F64Eq | NumOp::F64Ne | NumOp::F64Lt | NumOp::F64Gt | NumOp::F64Le | NumOp::F64Ge
        | NumOp::F32Ceil | NumOp::F32Floor | NumOp::F32Trunc | NumOp::F32Nearest | NumOp::F32Sqrt
        | NumOp::F32Add | NumOp::F32Sub | NumOp::F32Mul | NumOp::F32Div | NumOp::F32Min | NumOp::F32Max
        | NumOp::F64Ceil | NumOp::F64Floor | NumOp::F64Trunc | NumOp::F64Nearest | NumOp::F64Sqrt
        | NumOp::F64Add | NumOp::F64Sub | NumOp::F64Mul | NumOp::F64Div | NumOp::F64Min | NumOp::F64Max
        | NumOp::I32TruncF32S | NumOp::I32TruncF32U | NumOp::I32TruncF64S | NumOp::I32TruncF64U
        | NumOp::I64TruncF32S | NumOp::I64TruncF32U | NumOp::I64TruncF64S | NumOp::I64TruncF64U
        | NumOp::F32ConvertI32S | NumOp::F32ConvertI32U | NumOp::F32ConvertI64S | NumOp::F32ConvertI64U
        | NumOp::F32DemoteF64 | NumOp::F64ConvertI32S | NumOp::F64ConvertI32U | NumOp::F64ConvertI64S
        | NumOp::F64ConvertI64U | NumOp::F64PromoteF32
        | NumOp::I32TruncSatF32S | NumOp::I32TruncSatF32U | NumOp::I32TruncSatF64S | NumOp::I32TruncSatF64U
        | NumOp::I64TruncSatF32S | NumOp::I64TruncSatF32U | NumOp::I64TruncSatF64S | NumOp::I64TruncSatF64U => true,
        _ => false,
    }
}

// ---- integer models ----

pub open spec fn flag(b: bool) -> u32 {
    if b { 1 } else { 0 }
}

/// `x` modulo 2^32.
pub open spec fn wrap32(x: int) -> u32 {
    (x % 0x1_0000_0000) as u32
}

/// `x` modulo 2^64.
pub open spec fn wrap64(x: int) -> u64 {
    (x % 0x1_0000_0000_0000_0000) as u64
}

/// Two's complement reading of a 32-bit pattern.
pub open spec fn sint32(x: u32) -> int {
    if x < 0x8000_0000 { x as int } else { x - 0x1_0000_0000 }
}

/// Two's complement reading of a 64-bit pattern.
pub open spec fn sint64(x: u64) -> int {
    if x < 0x8000_0000_0000_0000 { x as int } else { x - 0x1_0000_0000_0000_0000 }
}

pub open spec fn abs(x: int) -> int {
    if x < 0 { -x } else { x }
}

/// Division rounding toward zero.
pub open spec fn tdiv(x: int, y: int) -> int {
    if (x < 0) == (y < 0) { abs(x) / abs(y) } else { -(abs(x) / abs(y)) }
}

/// Remainder of division rounding toward zero (sign of the dividend).
pub open spec fn trem(x: int, y: int) -> int {
    x - y * tdiv(x, y)
}

/// The number of set bits among the low `n` bits of `x`.
pub open spec fn popcount(x: nat, n: nat) -> nat
    decreases n,
{
    if n == 0 { 0 } else { (x % 2) + popcount(x / 2, (n - 1) as nat) }
}

pub open spec fn rotl32(a: u32, k: u32) -> u32 {
    let s = k % 32;
    if s == 0 { a } else { (a << s) | (a >> ((32 - s) as u32)) }
}

pub open spec fn rotl64(a: u64, k: u64) -> u64 {
    let s = k % 64;
    if s == 0 { a } else { (a << s) | (a >> ((64 - s) as u64)) }
}

/// The operand type of an integer or bit-pattern operator.
pub open spec fn operand_type(op: NumOp) -> ValType {
    match op {
        NumOp::I32Eqz | NumOp::I32Eq | NumOp::I32Ne | NumOp::I32LtS | NumOp::I32LtU | NumOp::I32GtS
        | NumOp::I32GtU | NumOp::I32LeS | NumOp::I32LeU | NumOp::I32GeS | NumOp::I32GeU
        | NumOp::I32Clz | NumOp::I32Ctz | NumOp::I32Popcnt | NumOp::I32Add | NumOp::I32Sub
        | NumOp::I32Mul | NumOp::I32DivS | NumOp::I32DivU | NumOp::I32RemS | NumOp::I32RemU
        | NumOp::I32And | NumOp::I32Or | NumOp::I32Xor | NumOp::I32Shl | NumOp::I32ShrS
        | NumOp::I32ShrU | NumOp::I32Rotl | NumOp::I32Rotr | NumOp::I64ExtendI32S
        | NumOp::I64ExtendI32U | NumOp::F32ReinterpretI32 | NumOp::I32Extend8S
        | NumOp::I32Extend16S => ValType::I32,
        NumOp::F32Abs | NumOp::F32Neg | NumOp::F32Copysign | NumOp::I32ReinterpretF32 => ValType::F32,
        NumOp::F64Abs | NumOp::F64Neg | NumOp::F64Copysign | NumOp::I64ReinterpretF64 => ValType::F64,
        _ => ValType::I64,
    }
}

/// Whether the operator takes two operands.
pub open spec fn is_binary(op: NumOp) -> bool {
    match op {
        NumOp::I32Eq | NumOp::I32Ne | NumOp::I32LtS | NumOp::I32LtU | NumOp::I32GtS | NumOp::I32GtU
        | NumOp::I32LeS | NumOp::I32LeU | NumOp::I32GeS | NumOp::I32GeU
        | NumOp::I64Eq | NumOp::I64Ne | NumOp::I64LtS | NumOp::I64LtU | NumOp::I64GtS | NumOp::I64GtU
        | NumOp::I64LeS | NumOp::I64LeU | NumOp::I64GeS | NumOp::I64GeU
        | NumOp::I32Add | NumOp::I32Sub | NumOp::I32Mul | NumOp::I32DivS | NumOp::I32DivU
        | NumOp::I32RemS | NumOp::I32RemU | NumOp::I32And | NumOp::I32Or | NumOp::I32Xor
        | NumOp::I32Shl | NumOp::I32ShrS | NumOp::I32ShrU | NumOp::I32Rotl | NumOp::I32Rotr
        | NumOp::I64Add | NumOp::I64Sub | NumOp::I64Mul | NumOp::I64DivS | NumOp::I64DivU
        | NumOp::I64RemS | NumOp::I64RemU | NumOp::I64And | NumOp::I64Or | NumOp::I64Xor
        | NumOp::I64Shl | NumOp::I64ShrS | NumOp::I64ShrU | NumOp::I64Rotl | NumOp::I64Rotr
        | NumOp::F32Copysign | NumOp::F64Copysign => true,
        _ => false,
    }
}

/// The result of a 32-bit binary operator.
pub open spec fn binop32(op: NumOp, a: u32, b: u32) -> Result<Value, IntTrap> {
    let (sa, sb) = (sint32(a), sint32(b));
    match op {
        NumOp::I32Eq => Ok(Value::I32(flag(a == b))),
        NumOp::I32Ne => Ok(Value::I32(flag(a != b))),
        NumOp::I32LtS => Ok(Value::I32(flag((a as i32) < (b as i32)))),
        NumOp::I32LtU => Ok(Value::I32(flag(a < b))),
        NumOp::I32GtS => Ok(Value::I32(flag((a as i32) > (b as i32)))),
        NumOp::I32GtU => Ok(Value::I32(flag(a > b))),
        NumOp::I32LeS => Ok(Value::I32(flag((a as i32) <= (b as i32)))),
        NumOp::I32LeU => Ok(Value::I32(flag(a <= b))),
        NumOp::I32GeS => Ok(Value::I32(flag((a as i32) >= (b as i32)))),
        NumOp::I32GeU => Ok(Value::I32(flag(a >= b))),
        NumOp::I32Add => Ok(Value::I32(wrap32(a + b))),
        NumOp::I32Sub => Ok(Value::I32(wrap32(a - b))),
        NumOp::I32Mul => Ok(Value::I32(wrap32(a * b))),
        NumOp::I32DivU => if b == 0 { Err(IntTrap::DivideByZero) } else { Ok(Value::I32(a / b)) },
        NumOp::I32RemU => if b == 0 { Err(IntTrap::DivideByZero) } else { Ok(Value::I32(a % b)) },
        NumOp::I32DivS => if b == 0 {
            Err(IntTrap::DivideByZero)
        } else if sa == -0x8000_0000 && sb == -1 {
            Err(IntTrap::Overflow)
        } else {
            Ok(Value::I32(wrap32(tdiv(sa, sb))))
        },
        NumOp::I32RemS => if b == 0 { Err(IntTrap::DivideByZero) } else { Ok(Value::I32(wrap32(trem(sa, sb)))) },
        NumOp::I32And => Ok(Value::I32(a & b)),
        NumOp::I32Or => Ok(Value::I32(a | b)),
        NumOp::I32Xor => Ok(Value::I32(a ^ b)),
        NumOp::I32Shl => Ok(Value::I32(a << (b % 32))),
        NumOp::I32ShrS => Ok(Value::I32(((a as i32) >> (b % 32)) as u32)),
        NumOp::I32ShrU => Ok(Value::I32(a >> (b % 32))),
        NumOp::I32Rotl => Ok(Value::I32(rotl32(a, b))),
        _ => Ok(Value::I32(rotl32(a, ((32 - b % 32) % 32) as u32))),
    }
}

/// The result of a 64-bit binary operator.
pub open spec fn binop64(op: NumOp, a: u64, b: u64) -> Result<Value, IntTrap> {
    let (sa, sb) = (sint64(a), sint64(b));
    match op {
        NumOp::I64Eq => Ok(Value::I32(flag(a == b))),
        NumOp::I64Ne => Ok(Value::I32(flag(a != b))),
        NumOp::I64LtS => Ok(Value::I32(flag((a as i64) < (b as i64)))),
        NumOp::I64LtU => Ok(Value::I32(flag(a < b))),
        NumOp::I64GtS => Ok(Value::I32(flag((a as i64) > (b as i64)))),
        NumOp::I64GtU => Ok(Value::I32(flag(a > b))),
        NumOp::I64LeS => Ok(Value::I32(flag((a as i64) <= (b as i64)))),
        NumOp::I64LeU => Ok(Value::I32(flag(a <= b))),
        NumOp::I64GeS => Ok(Value::I32(flag((a as i64) >= (b as i64)))),
        NumOp::I64GeU => Ok(Value::I32(flag(a >= b))),
        NumOp::I64Add => Ok(Value::I64(wrap64(a + b))),
        NumOp::I64Sub => Ok(Value::I64(wrap64(a - b))),
        NumOp::I64Mul => Ok(Value::I64(wrap64(a * b))),
        NumOp::I64DivU => if b == 0 { Err(IntTrap::DivideByZero) } else { Ok(Value::I64(a / b)) },
        NumOp::I64RemU => if b == 0 { Err(IntTrap::DivideByZero) } else { Ok(Value::I64(a % b)) },
        NumOp::I64DivS => if b == 0 {
            Err(IntTrap::DivideByZero)
        } else if sa == -0x8000_0000_0000_0000 && sb == -1 {
            Err(IntTrap::Overflow)
        } else {
            Ok(Value::I64(wrap64(tdiv(sa, sb))))
        },
        NumOp::I64RemS => if b == 0 { Err(IntTrap::DivideByZero) } else { Ok(Value::I64(wrap64(trem(sa, sb)))) },
        NumOp::I64And => Ok(Value::I64(a & b)),
        NumOp::I64Or => Ok(Value::I64(a | b)),
        NumOp::I64Xor => Ok(Value::I64(a ^ b)),
        NumOp::I64Shl => Ok(Value::I64(a << (b % 64))),
        NumOp::I64ShrS => Ok(Value::I64(((a as i64) >> (b % 64)) as u64)),
        NumOp::I64ShrU => Ok(Value::I64(a >> (b % 64))),
        NumOp::I64Rotl => Ok(Value::I64(rotl64(a, b))),
        _ => Ok(Value::I64(rotl64(a, ((64 - b % 64) % 64) as u64))),
    }
}

/// The result of a one-operand integer or bit-pattern operator.
pub open spec fn unop(op: NumOp, a: Value) -> Value {
    match (op, a) {
        (NumOp::I32Eqz, Value::I32(x)) => Value::I32(flag(x == 0)),
        (NumOp::I32Clz, Value::I32(x)) => Value::I32(u32_leading_zeros(x)),
        (NumOp::I32Ctz, Value::I32(x)) => Value::I32(u32_trailing_zeros(x)),
        (NumOp::I32Popcnt, Value::I32(x)) => Value::I32(popcount(x as nat, 32) as u32),
        (NumOp::I32Extend8S, Value::I32(x)) => Value::I32(((x as i8) as i32) as u32),
        (NumOp::I32Extend16S, Value::I32(x)) => Value::I32(((x as i16) as i32) as u32),
        (NumOp::I64ExtendI32S, Value::I32(x)) => Value::I64(((x as i32) as i64) as u64),
        (NumOp::I64ExtendI32U, Value::I32(x)) => Value::I64(x as u64),
        (NumOp::F32ReinterpretI32, Value::I32(x)) => Value::F32(x),
        (NumOp::I64Eqz, Value::I64(x)) => Value::I32(flag(x == 0)),
        (NumOp::I64Clz, Value::I64(x)) => Value::I64(u64_leading_zeros(x) as u64),
        (NumOp::I64Ctz, Value::I64(x)) => Value::I64(u64_trailing_zeros(x) as u64),
        (NumOp::I64Popcnt, Value::I64(x)) => Value::I64(popcount(x as nat, 64) as u64),
        (NumOp::I64Extend8S, Value::I64(x)) => Value::I64(((x as i8) as i64) as u64),
        (NumOp::I64Extend16S, Value::I64(x)) => Value::I64(((x as i16) as i64) as u64),
        (NumOp::I64Extend32S, Value::I64(x)) => Value::I64(((x as i32) as i64) as u64),
        (NumOp::I32WrapI64, Value::I64(x)) => Value::I32(wrap32(x as int)),
        (NumOp::F64ReinterpretI64, Value::I64(x)) => Value::F64(x),
        (NumOp::F32Abs, Value::F32(x)) => Value::F32(x & 0x7fff_ffff),
        (NumOp::F32Neg, Value::F32(x)) => Value::F32(x ^ 0x8000_0000),
        (NumOp::I32ReinterpretF32, Value::F32(x)) => Value::I32(x),
        (NumOp::F64Abs, Value::F64(x)) => Value::F64(x & 0x7fff_ffff_ffff_ffff),
        (NumOp::F64Neg, Value::F64(x)) => Value::F64(x ^ 0x8000_0000_0000_0000),
        (NumOp::I64ReinterpretF64, Value::F64(x)) => Value::I64(x),
        (_, v) => v,
    }
}

/// The result of a non-float operator on well-typed operands
/// (`b` is ignored by one-operand operators).
pub open spec fn int_num_result(op: NumOp, a: Value, b: Value) -> Result<Value, IntTrap> {
    match (a, b) {
        (Value::I32(x), Value::I32(y)) if is_binary(op) => binop32(op, x, y),
        (Value::I64(x), Value::I64(y)) if is_binary(op) => binop64(op, x, y),
        (Value::F32(x), Value::F32(y)) if is_binary(op) => Ok(Value::F32((x & 0x7fff_ffff) | (y & 0x8000_0000))),
        (Value::F64(x), Value::F64(y)) if is_binary(op) => Ok(Value::F64(
            (x & 0x7fff_ffff_ffff_ffff) | (y & 0x8000_0000_0000_0000),
        )),
        _ => Ok(unop(op, a)),
    }
}

/// Whether the operands fit the operator's signature.
pub open spec fn operands_fit(op: NumOp, a: Value, b: Value) -> bool {
    &&& value_type(a) == operand_type(op)
    &&& is_binary(op) ==> value_type(b) == operand_type(op)
}


/// Number of set bits of a 32-bit pattern.
fn popcnt32(x: u32) -> (r: u32)
    ensures
        r == popcount(x as nat, 32),
{
    let mut n: u32 = 0;
    let mut v: u32 = x;
    let mut i: u32 = 0;
    while i < 32
        invariant
            i <= 32,
            n <= i,
            n + popcount(v as nat, (32 - i) as nat) == popcount(x as nat, 32),
        decreases 32 - i,
    {
        n = n + (v % 2);
        v = v / 2;
        i = i + 1;
    }
    n
}

/// Number of set bits of a 64-bit pattern.
fn popcnt64(x: u64) -> (r: u64)
    ensures
        r == popcount(x as nat, 64),
{
    let mut n: u64 = 0;
    let mut v: u64 = x;
    let mut i: u64 = 0;
    while i < 64
        invariant
            i <= 64,
            n <= i,
            n + popcount(v as nat, (64 - i) as nat) == popcount(x as nat, 64),
        decreases 64 - i,
    {
        n = n + (v % 2);
        v = v / 2;
        i = i + 1;
    }
    n
}

/// Truncating signed division on 32-bit patterns.
fn sdiv32(a: u32, b: u32) -> (r: u32)
    requires
        b != 0,
        !(sint32(a) == -0x8000_0000 && sint32(b) == -1),
    ensures
        r == wrap32(tdiv(sint32(a), sint32(b))),
{
    let na = a >= 0x8000_0000;
    let nb = b >= 0x8000_0000;
    let ma: u32 = if na { 0u32.wrapping_sub(a) } else { a };
    let mb: u32 = if nb { 0u32.wrapping_sub(b) } else { b };
    assert(ma as int == abs(sint32(a)) || (na && a == 0x8000_0000 && ma == 0x8000_0000));
    assert(ma as int == abs(sint32(a)));
    assert(mb as int == abs(sint32(b)));
    let q = ma / mb;
    if na != nb {
        0u32.wrapping_sub(q)
    } else {
        q
    }
}

/// Truncating signed remainder on 32-bit patterns.
fn srem32(a: u32, b: u32) -> (r: u32)
    requires
        b != 0,
    ensures
        r == wrap32(trem(sint32(a), sint32(b))),
{
    let na = a >= 0x8000_0000;
    let nb = b >= 0x8000_0000;
    let ma: u32 = if na { 0u32.wrapping_sub(a) } else { a };
    let mb: u32 = if nb { 0u32.wrapping_sub(b) } else { b };
    assert(ma as int == abs(sint32(a)));
    assert(mb as int == abs(sint32(b)));
    let m = ma % mb;
    proof {
        let (x, y) = (sint32(a), sint32(b));
        let q = abs(x) / abs(y);
        vstd::arithmetic::div_mod::lemma_fundamental_div_mod(abs(x), abs(y));
        if x < 0 {
            if y < 0 {
                assert(trem(x, y) == x - y * q);
                assert(y * q == -(abs(y) * q)) by (nonlinear_arith) requires y < 0, abs(y) == -y;
            } else {
                assert(trem(x, y) == x - y * (-q));
                assert(y * (-q) == -(abs(y) * q)) by (nonlinear_arith) requires y >= 0, abs(y) == y;
            }
            assert(trem(x, y) == -(m as int));
        } else {
            if y < 0 {
                assert(trem(x, y) == x - y * (-q));
                assert(y * (-q) == abs(y) * q) by (nonlinear_arith) requires y < 0, abs(y) == -y;
            } else {
                assert(trem(x, y) == x - y * q);
                assert(y * q == abs(y) * q) by (nonlinear_arith) requires y >= 0, abs(y) == y;
            }
            assert(trem(x, y) == m as int);
        }
    }
    if na {
        0u32.wrapping_sub(m)
    } else {
        m
    }
}

/// Truncating signed division on 64-bit patterns.
fn sdiv64(a: u64, b: u64) -> (r: u64)
    requires
        b != 0,
        !(sint64(a) == -0x8000_0000_0000_0000 && sint64(b) == -1),
    ensures
        r == wrap64(tdiv(sint64(a), sint64(b))),
{
    let na = a >= 0x8000_0000_0000_0000;
    let nb = b >= 0x8000_0000_0000_0000;
    let ma: u64 = if na { 0u64.wrapping_sub(a) } else { a };
    let mb: u64 = if nb { 0u64.wrapping_sub(b) } else { b };
    assert(ma as int == abs(sint64(a)));
    assert(mb as int == abs(sint64(b)));
    let q = ma / mb;
    if na != nb {
        0u64.wrapping_sub(q)
    } else {
        q
    }
}

/// Truncating signed remainder on 64-bit patterns.
fn srem64(a: u64, b: u64) -> (r: u64)
    requires
        b != 0,
    ensures
        r == wrap64(trem(sint64(a), sint64(b))),
{
    let na = a >= 0x8000_0000_0000_0000;
    let nb = b >= 0x8000_0000_0000_0000;
    let ma: u64 = if na { 0u64.wrapping_sub(a) } else { a };
    let mb: u64 = if nb { 0u64.wrapping_sub(b) } else { b };
    assert(ma as int == abs(sint64(a)));
    assert(mb as int == abs(sint64(b)));
    let m = ma % mb;
    proof {
        let (x, y) = (sint64(a), sint64(b));
        let q = abs(x) / abs(y);
        vstd::arithmetic::div_mod::lemma_fundamental_div_mod(abs(x), abs(y));
        if x < 0 {
            if y < 0 {
                assert(trem(x, y) == x - y * q);
                assert(y * q == -(abs(y) * q)) by (nonlinear_arith) requires y < 0, abs(y) == -y;
            } else {
                assert(trem(x, y) == x - y * (-q));
                assert(y * (-q) == -(abs(y) * q)) by (nonlinear_arith) requires y >= 0, abs(y) == y;
            }
            assert(trem(x, y) == -(m as int));
        } else {
            if y < 0 {
                assert(trem(x, y) == x - y * (-q));
                assert(y * (-q) == abs(y) * q) by (nonlinear_arith) requires y < 0, abs(y) == -y;
            } else {
                assert(trem(x, y) == x - y * q);
                assert(y * q == abs(y) * q) by (nonlinear_arith) requires y >= 0, abs(y) == y;
            }
            assert(trem(x, y) == m as int);
        }
    }
    if na {
        0u64.wrapping_sub(m)
    } else {
        m
    }
}


/// A 32-bit binary operator.
fn binop32_exec(op: NumOp, a: u32, b: u32) -> (r: Result<Value, IntTrap>)
    requires
        is_binary(op),
        operand_type(op) == ValType::I32,
    ensures
        r == binop32(op, a, b),
{
    let k = b & 31;
    assert(b & 31 == b % 32 && b & 31 < 32) by (bit_vector);
    match op {
        NumOp::I32Eq => Ok(Value::I32(if a == b { 1 } else { 0 })),
        NumOp::I32Ne => Ok(Value::I32(if a != b { 1 } else { 0 })),
        NumOp::I32LtS => Ok(Value::I32(if (a as i32) < (b as i32) { 1 } else { 0 })),
        NumOp::I32LtU => Ok(Value::I32(if a < b { 1 } else { 0 })),
        NumOp::I32GtS => Ok(Value::I32(if (a as i32) > (b as i32) { 1 } else { 0 })),
        NumOp::I32GtU => Ok(Value::I32(if a > b { 1 } else { 0 })),
        NumOp::I32LeS => Ok(Value::I32(if (a as i32) <= (b as i32) { 1 } else { 0 })),
        NumOp::I32LeU => Ok(Value::I32(if a <= b { 1 } else { 0 })),
        NumOp::I32GeS => Ok(Value::I32(if (a as i32) >= (b as i32) { 1 } else { 0 })),
        NumOp::I32GeU => Ok(Value::I32(if a >= b { 1 } else { 0 })),
        NumOp::I32Add => Ok(Value::I32(a.wrapping_add(b))),
        NumOp::I32Sub => Ok(Value::I32(a.wrapping_sub(b))),
        NumOp::I32Mul => Ok(Value::I32(a.wrapping_mul(b))),
        NumOp::I32DivU => if b == 0 { Err(IntTrap::DivideByZero) } else { Ok(Value::I32(a / b)) },
        NumOp::I32RemU => if b == 0 { Err(IntTrap::DivideByZero) } else { Ok(Value::I32(a % b)) },
        NumOp::I32DivS => {
            if b == 0 {
                Err(IntTrap::DivideByZero)
            } else if a == 0x8000_0000 && b == 0xffff_ffff {
                Err(IntTrap::Overflow)
            } else {
                Ok(Value::I32(sdiv32(a, b)))
            }
        },
        NumOp::I32RemS => if b == 0 { Err(IntTrap::DivideByZero) } else { Ok(Value::I32(srem32(a, b))) },
        NumOp::I32And => Ok(Value::I32(a & b)),
        NumOp::I32Or => Ok(Value::I32(a | b)),
        NumOp::I32Xor => Ok(Value::I32(a ^ b)),
        NumOp::I32Shl => Ok(Value::I32(a << k)),
        NumOp::I32ShrS => Ok(Value::I32(((a as i32) >> k) as u32)),
        NumOp::I32ShrU => Ok(Value::I32(a >> k)),
        NumOp::I32Rotl => Ok(Value::I32(if k == 0 { a } else { (a << k) | (a >> (32 - k)) })),
        _ => {
            let j: u32 = (32 - k) % 32;
            assert(j == ((32 - b % 32) % 32) as u32);
            assert(j % 32 == j);
            Ok(Value::I32(if j == 0 { a } else { (a << j) | (a >> (32 - j)) }))
        },
    }
}

/// A 64-bit binary operator.
fn binop64_exec(op: NumOp, a: u64, b: u64) -> (r: Result<Value, IntTrap>)
    requires
        is_binary(op),
        operand_type(op) == ValType::I64,
    ensures
        r == binop64(op, a, b),
{
    let k = b & 63;
    assert(b & 63 == b % 64 && b & 63 < 64) by (bit_vector);
    match op {
        NumOp::I64Eq => Ok(Value::I32(if a == b { 1 } else { 0 })),
        NumOp::I64Ne => Ok(Value::I32(if a != b { 1 } else { 0 })),
        NumOp::I64LtS => Ok(Value::I32(if (a as i64) < (b as i64) { 1 } else { 0 })),
        NumOp::I64LtU => Ok(Value::I32(if a < b { 1 } else { 0 })),
        NumOp::I64GtS => Ok(Value::I32(if (a as i64) > (b as i64) { 1 } else { 0 })),
        NumOp::I64GtU => Ok(Value::I32(if a > b { 1 } else { 0 })),
        NumOp::I64LeS => Ok(Value::I32(if (a as i64) <= (b as i64) { 1 } else { 0 })),
        NumOp::I64LeU => Ok(Value::I32(if a <= b { 1 } else { 0 })),
        NumOp::I64GeS => Ok(Value::I32(if (a as i64) >= (b as i64) { 1 } else { 0 })),
        NumOp::I64GeU => Ok(Value::I32(if a >= b { 1 } else { 0 })),
        NumOp::I64Add => Ok(Value::I64(a.wrapping_add(b))),
        NumOp::I64Sub => Ok(Value::I64(a.wrapping_sub(b))),
        NumOp::I64Mul => Ok(Value::I64(a.wrapping_mul(b))),
        NumOp::I64DivU => if b == 0 { Err(IntTrap::DivideByZero) } else { Ok(Value::I64(a / b)) },
        NumOp::I64RemU => if b == 0 { Err(IntTrap::DivideByZero) } else { Ok(Value::I64(a % b)) },
        NumOp::I64DivS => {
            if b == 0 {
                Err(IntTrap::DivideByZero)
            } else if a == 0x8000_0000_0000_0000 && b == 0xffff_ffff_ffff_ffff {
                Err(IntTrap::Overflow)
            } else {
                Ok(Value::I64(sdiv64(a, b)))
            }
        },
        NumOp::I64RemS => if b == 0 { Err(IntTrap::DivideByZero) } else { Ok(Value::I64(srem64(a, b))) },
        NumOp::I64And => Ok(Value::I64(a & b)),
        NumOp::I64Or => Ok(Value::I64(a | b)),
        NumOp::I64Xor => Ok(Value::I64(a ^ b)),
        NumOp::I64Shl => Ok(Value::I64(a << k)),
        NumOp::I64ShrS => Ok(Value::I64(((a as i64) >> k) as u64)),
        NumOp::I64ShrU => Ok(Value::I64(a >> k)),
        NumOp::I64Rotl => Ok(Value::I64(if k == 0 { a } else { (a << k) | (a >> (64 - k)) })),
        _ => {
            let j: u64 = (64 - k) % 64;
            assert(j == ((64 - b % 64) % 64) as u64);
            assert(j % 64 == j);
            Ok(Value::I64(if j == 0 { a } else { (a << j) | (a >> (64 - j)) }))
        },
    }
}

/// A one-operand integer or bit-pattern operator.
fn unop_exec(op: NumOp, a: Value) -> (r: Value)
    ensures
        r == unop(op, a),
{
    match (op, a) {
        (NumOp::I32Eqz, Value::I32(x)) => Value::I32(if x == 0 { 1 } else { 0 }),
        (NumOp::I32Clz, Value::I32(x)) => Value::I32(x.leading_zeros()),
        (NumOp::I32Ctz, Value::I32(x)) => Value::I32(x.trailing_zeros()),
        (NumOp::I32Popcnt, Value::I32(x)) => Value::I32(popcnt32(x)),
        (NumOp::I32Extend8S, Value::I32(x)) => Value::I32(((x as i8) as i32) as u32),
        (NumOp::I32Extend16S, Value::I32(x)) => Value::I32(((x as i16) as i32) as u32),
        (NumOp::I64ExtendI32S, Value::I32(x)) => Value::I64(((x as i32) as i64) as u64),
        (NumOp::I64ExtendI32U, Value::I32(x)) => Value::I64(x as u64),
        (NumOp::F32ReinterpretI32, Value::I32(x)) => Value::F32(x),
        (NumOp::I64Eqz, Value::I64(x)) => Value::I32(if x == 0 { 1 } else { 0 }),
        (NumOp::I64Clz, Value::I64(x)) => Value::I64(x.leading_zeros() as u64),
        (NumOp::I64Ctz, Value::I64(x)) => Value::I64(x.trailing_zeros() as u64),
        (NumOp::I64Popcnt, Value::I64(x)) => Value::I64(popcnt64(x)),
        (NumOp::I64Extend8S, Value::I64(x)) => Value::I64(((x as i8) as i64) as u64),
        (NumOp::I64Extend16S, Value::I64(x)) => Value::I64(((x as i16) as i64) as u64),
        (NumOp::I64Extend32S, Value::I64(x)) => Value::I64(((x as i32) as i64) as u64),
        (NumOp::I32WrapI64, Value::I64(x)) => {
            let r = x as u32;
            assert(x as u32 == x % 0x1_0000_0000) by (bit_vector);
            Value::I32(r)
        },
        (NumOp::F64ReinterpretI64, Value::I64(x)) => Value::F64(x),
        (NumOp::F32Abs, Value::F32(x)) => Value::F32(x & 0x7fff_ffff),
        (NumOp::F32Neg, Value::F32(x)) => Value::F32(x ^ 0x8000_0000),
        (NumOp::I32ReinterpretF32, Value::F32(x)) => Value::I32(x),
        (NumOp::F64Abs, Value::F64(x)) => Value::F64(x & 0x7fff_ffff_ffff_ffff),
        (NumOp::F64Neg, Value::F64(x)) => Value::F64(x ^ 0x8000_0000_0000_0000),
        (NumOp::I64ReinterpretF64, Value::F64(x)) => Value::I64(x),
        (_, v) => v,
    }
}

/// Evaluates an integer or bit-pattern operator on well-typed operands
/// (`b` is ignored by one-operand operators).
pub fn eval_int(op: NumOp, a: Value, b: Value) -> (r: Result<Value, IntTrap>)
    requires
        !float_op(op),
        operands_fit(op, a, b),
    ensures
        r == int_num_result(op, a, b),
{
    match (a, b) {
        (Value::I32(x), Value::I32(y)) if is_binary_exec(op) => binop32_exec(op, x, y),
        (Value::I64(x), Value::I64(y)) if is_binary_exec(op) => binop64_exec(op, x, y),
        (Value::F32(x), Value::F32(y)) if is_binary_exec(op) => Ok(Value::F32((x & 0x7fff_ffff) | (y & 0x8000_0000))),
        (Value::F64(x), Value::F64(y)) if is_binary_exec(op) => Ok(Value::F64(
            (x & 0x7fff_ffff_ffff_ffff) | (y & 0x8000_0000_0000_0000),
        )),
        _ => Ok(unop_exec(op, a)),
    }
}

/// Whether the operator takes two operands.
pub fn is_binary_exec(op: NumOp) -> (r: bool)
    ensures
        r == is_binary(op),
{
    match op {
        NumOp::I32Eq | NumOp::I32Ne | NumOp::I32LtS | NumOp::I32LtU | NumOp::I32GtS | NumOp::I32GtU
        | NumOp::I32LeS | NumOp::I32LeU | NumOp::I32GeS | NumOp::I32GeU
        | NumOp::I64Eq | NumOp::I64Ne | NumOp::I64LtS | NumOp::I64LtU | NumOp::I64GtS | NumOp::I64GtU
        | NumOp::I64LeS | NumOp::I64LeU | NumOp::I64GeS | NumOp::I64GeU
        | NumOp::I32Add | NumOp::I32Sub | NumOp::I32Mul | NumOp::I32DivS | NumOp::I32DivU
        | NumOp::I32RemS | NumOp::I32RemU | NumOp::I32And | NumOp::I32Or | NumOp::I32Xor
        | NumOp::I32Shl | NumOp::I32ShrS | NumOp::I32ShrU | NumOp::I32Rotl | NumOp::I32Rotr
        | NumOp::I64Add | NumOp::I64Sub | NumOp::I64Mul | NumOp::I64DivS | NumOp::I64DivU
        | NumOp::I64RemS | NumOp::I64RemU | NumOp::I64And | NumOp::I64Or | NumOp::I64Xor
        | NumOp::I64Shl | NumOp::I64ShrS | NumOp::I64ShrU | NumOp::I64Rotl | NumOp::I64Rotr
        | NumOp::F32Copysign | NumOp::F64Copysign => true,
        _ => false,
    }
}

/// The operand type of a non-float operator.
pub fn operand_type_exec(op: NumOp) -> (r: ValType)
    ensures
        r == operand_type(op),
{
    match op {
        NumOp::I32Eqz | NumOp::I32Eq | NumOp::I32Ne | NumOp::I32LtS | NumOp::I32LtU | NumOp::I32GtS
        | NumOp::I32GtU | NumOp::I32LeS | NumOp::I32LeU | NumOp::I32GeS | NumOp::I32GeU
        | NumOp::I32Clz | NumOp::I32Ctz | NumOp::I32Popcnt | NumOp::I32Add | NumOp::I32Sub
        | NumOp::I32Mul | NumOp::I32DivS | NumOp::I32DivU | NumOp::I32RemS | NumOp::I32RemU
        | NumOp::I32And | NumOp::I32Or | NumOp::I32Xor | NumOp::I32Shl | NumOp::I32ShrS
        | NumOp::I32ShrU | NumOp::I32Rotl | NumOp::I32Rotr | NumOp::I64ExtendI32S
        | NumOp::I64ExtendI32U | NumOp::F32ReinterpretI32 | NumOp::I32Extend8S
        | NumOp::I32Extend16S => ValType::I32,
        NumOp::F32Abs | NumOp::F32Neg | NumOp::F32Copysign | NumOp::I32ReinterpretF32 => ValType::F32,
        NumOp::F64Abs | NumOp::F64Neg | NumOp::F64Copysign | NumOp::I64ReinterpretF64 => ValType::F64,
        _ => ValType::I64,
    }
}

/// Whether the f32 bits `b` are a NaN: all exponent bits set, a nonzero
/// fraction.
pub open spec fn nan32(b: u32) -> bool {
    b & 0x7f80_0000 == 0x7f80_0000 && b & 0x007f_ffff != 0
}

/// Whether the f64 bits `b` are a NaN.
pub open spec fn nan64(b: u64) -> bool {
    b & 0x7ff0_0000_0000_0000 == 0x7ff0_0000_0000_0000 && b & 0x000f_ffff_ffff_ffff != 0
}

/// The NaN rule of the f32 rounding operators (ceil, floor, trunc,
/// nearest): a NaN operand gives the same NaN with its quiet bit set;
/// any other operand is left to float arithmetic (`None`).
pub fn round_nan32(b: u32) -> (r: Option<u32>)
    ensures
        r == (if nan32(b) { Some(b | 0x0040_0000u32) } else { None::<u32> }),
{
    if b & 0x7f80_0000 == 0x7f80_0000 && b & 0x007f_ffff != 0 {
        Some(b | 0x0040_0000)
    } else {
        None
    }
}

/// The NaN rule of the f64 rounding operators.
pub fn round_nan64(b: u64) -> (r: Option<u64>)
    ensures
        r == (if nan64(b) { Some(b | 0x0008_0000_0000_0000u64) } else { None::<u64> }),
{
    if b & 0x7ff0_0000_0000_0000 == 0x7ff0_0000_0000_0000 && b & 0x000f_ffff_ffff_ffff != 0 {
        Some(b | 0x0008_0000_0000_0000)
    } else {
        None
    }
}

/// A rounding operator applied to a NaN: the operand's NaN made quiet
/// (`None` where `op` is not a rounding operator of the operand's type or
/// the operand is not a NaN, so that float arithmetic decides).
pub fn rounding_nan(op: NumOp, v: Value) -> (r: Option<Value>)
    ensures
        r == match (op, v) {
            (NumOp::F32Ceil, Value::F32(b)) | (NumOp::F32Floor, Value::F32(b)) | (NumOp::F32Trunc, Value::F32(b))
            | (NumOp::F32Nearest, Value::F32(b)) => if nan32(b) { Some(Value::F32(b | 0x0040_0000u32)) } else { None },
            (NumOp::F64Ceil, Value::F64(b)) | (NumOp::F64Floor, Value::F64(b)) | (NumOp::F64Trunc, Value::F64(b))
            | (NumOp::F64Nearest, Value::F64(b)) => if nan64(b) {
                Some(Value::F64(b | 0x0008_0000_0000_0000u64))
            } else {
                None
            },
            _ => None,
        },
{
    match (op, v) {
        (NumOp::F32Ceil, Value::F32(b)) | (NumOp::F32Floor, Value::F32(b)) | (NumOp::F32Trunc, Value::F32(b))
        | (NumOp::F32Nearest, Value::F32(b)) => match round_nan32(b) {
            Some(q) => Some(Value::F32(q)),
            None => None,
        },
        (NumOp::F64Ceil, Value::F64(b)) | (NumOp::F64Floor, Value::F64(b)) | (NumOp::F64Trunc, Value::F64(b))
        | (NumOp::F64Nearest, Value::F64(b)) => match round_nan64(b) {
            Some(q) => Some(Value::F64(q)),
            None => None,
        },
        _ => None,
    }
}

} // verus!
