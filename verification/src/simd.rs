//! SIMD (v128) execution semantics for the wg-2.0 operator set. A v128
//! travels as a u128 whose 16 little-endian bytes are its lanes' bytes;
//! floating-point lane operators are handed to the embedder.
use vstd::prelude::*;
use vstd::arithmetic::power2::{pow2, lemma2_to64, lemma_pow2_pos, lemma_pow2_unfold};
use crate::bytes::{le_seq, le_value, le_bytes, read_le, write_le, written, lemma_le_roundtrip, lemma_le_seq_value, lemma_le_value_bound, lemma_written_read};
use crate::error::Trap;
use crate::exec::{Event, Flow, Machine, fault, load_at, mem0, mem0_ok};
use crate::module::{SimdLaneOp, SimdMemOp, SimdOp};
use crate::numeric::{popcount, abs};
use crate::store::Store;
use crate::types::ValType;
use crate::typing::simd_type;
use crate::values::{Value, value_type};

verus! {

// ---- lane model ----

/// The 16 little-endian bytes of a v128.
pub open spec fn v128_bytes(v: u128) -> Seq<u8> {
    le_seq(v as nat, 16)
}

/// Lane `i` of `w`-byte lanes in a byte sequence.
pub open spec fn lane_of(s: Seq<u8>, w: nat, i: int) -> nat {
    le_value(s.subrange(i * w, i * w + w))
}

/// Lane `i` of a v128 split into `w`-byte lanes.
pub open spec fn lane(v: u128, w: nat, i: int) -> nat {
    lane_of(v128_bytes(v), w, i)
}

pub open spec fn width_ok(w: nat) -> bool {
    w == 1 || w == 2 || w == 4 || w == 8
}

/// The number of values of a `w`-byte lane.
pub open spec fn full(w: nat) -> int {
    if w == 1 {
        0x100
    } else if w == 2 {
        0x1_0000
    } else if w == 4 {
        0x1_0000_0000
    } else {
        0x1_0000_0000_0000_0000
    }
}

/// Two's complement reading of a lane.
pub open spec fn sgn(x: nat, w: nat) -> int {
    if x >= full(w) / 2 { x - full(w) } else { x as int }
}

/// Sign or zero extension of a lane.
pub open spec fn ext(x: nat, w: nat, signed: bool) -> int {
    if signed { sgn(x, w) } else { x as int }
}

/// `x` modulo the lane size.
pub open spec fn wrapw(x: int, w: nat) -> nat {
    (x % full(w)) as nat
}

pub open spec fn clamp(x: int, lo: int, hi: int) -> int {
    if x < lo { lo } else if x > hi { hi } else { x }
}

/// Signed saturation into a lane.
pub open spec fn sat_s(x: int, w: nat) -> nat {
    wrapw(clamp(x, -(full(w) / 2), full(w) / 2 - 1), w)
}

/// Unsigned saturation into a lane.
pub open spec fn sat_u(x: int, w: nat) -> nat {
    clamp(x, 0, full(w) - 1) as nat
}

/// All bits of a lane set when `b` holds, else none.
pub open spec fn ones(b: bool, w: nat) -> nat {
    if b { (full(w) - 1) as nat } else { 0 }
}

/// The operators computed lane by lane (including splats, whose scalar is `s`).
pub open spec fn lanewise(op: SimdOp) -> bool {
    match op {
        SimdOp::I8x16Eq | SimdOp::I8x16Ne | SimdOp::I8x16LtS | SimdOp::I8x16LtU | SimdOp::I8x16GtS | SimdOp::I8x16GtU | SimdOp::I8x16LeS | SimdOp::I8x16LeU | SimdOp::I8x16GeS | SimdOp::I8x16GeU | SimdOp::I16x8Eq | SimdOp::I16x8Ne | SimdOp::I16x8LtS | SimdOp::I16x8LtU | SimdOp::I16x8GtS | SimdOp::I16x8GtU | SimdOp::I16x8LeS | SimdOp::I16x8LeU | SimdOp::I16x8GeS | SimdOp::I16x8GeU | SimdOp::I32x4Eq | SimdOp::I32x4Ne | SimdOp::I32x4LtS | SimdOp::I32x4LtU | SimdOp::I32x4GtS | SimdOp::I32x4GtU | SimdOp::I32x4LeS | SimdOp::I32x4LeU | SimdOp::I32x4GeS | SimdOp::I32x4GeU | SimdOp::I64x2Eq | SimdOp::I64x2Ne | SimdOp::I64x2LtS | SimdOp::I64x2GtS | SimdOp::I64x2LeS | SimdOp::I64x2GeS | SimdOp::I8x16Add | SimdOp::I8x16Sub | SimdOp::I8x16AddSatS | SimdOp::I8x16AddSatU | SimdOp::I8x16SubSatS | SimdOp::I8x16SubSatU | SimdOp::I8x16MinS | SimdOp::I8x16MinU | SimdOp::I8x16MaxS | SimdOp::I8x16MaxU | SimdOp::I8x16AvgrU | SimdOp::I16x8Add | SimdOp::I16x8Sub | SimdOp::I16x8Mul | SimdOp::I16x8AddSatS | SimdOp::I16x8AddSatU | SimdOp::I16x8SubSatS | SimdOp::I16x8SubSatU | SimdOp::I16x8MinS | SimdOp::I16x8MinU | SimdOp::I16x8MaxS | SimdOp::I16x8MaxU | SimdOp::I16x8AvgrU | SimdOp::I16x8Q15mulrSatS | SimdOp::I32x4Add | SimdOp::I32x4Sub | SimdOp::I32x4Mul | SimdOp::I32x4MinS | SimdOp::I32x4MinU | SimdOp::I32x4MaxS | SimdOp::I32x4MaxU | SimdOp::I64x2Add | SimdOp::I64x2Sub | SimdOp::I64x2Mul | SimdOp::I8x16Abs | SimdOp::I8x16Neg | SimdOp::I8x16Shl | SimdOp::I8x16ShrS | SimdOp::I8x16ShrU | SimdOp::I16x8Abs | SimdOp::I16x8Neg | SimdOp::I16x8Shl | SimdOp::I16x8ShrS | SimdOp::I16x8ShrU | SimdOp::I32x4Abs | SimdOp::I32x4Neg | SimdOp::I32x4Shl | SimdOp::I32x4ShrS | SimdOp::I32x4ShrU | SimdOp::I64x2Abs | SimdOp::I64x2Neg | SimdOp::I64x2Shl | SimdOp::I64x2ShrS | SimdOp::I64x2ShrU | SimdOp::I8x16Popcnt | SimdOp::F32x4Abs | SimdOp::F32x4Neg | SimdOp::F64x2Abs | SimdOp::F64x2Neg | SimdOp::I16x8ExtendLowI8x16S | SimdOp::I16x8ExtmulLowI8x16S | SimdOp::I16x8ExtendLowI8x16U | SimdOp::I16x8ExtmulLowI8x16U | SimdOp::I16x8ExtendHighI8x16S | SimdOp::I16x8ExtmulHighI8x16S | SimdOp::I16x8ExtendHighI8x16U | SimdOp::I16x8ExtmulHighI8x16U | SimdOp::I32x4ExtendLowI16x8S | SimdOp::I32x4ExtmulLowI16x8S | SimdOp::I32x4ExtendLowI16x8U | SimdOp::I32x4ExtmulLowI16x8U | SimdOp::I32x4ExtendHighI16x8S | SimdOp::I32x4ExtmulHighI16x8S | SimdOp::I32x4ExtendHighI16x8U | SimdOp::I32x4ExtmulHighI16x8U | SimdOp::I64x2ExtendLowI32x4S | SimdOp::I64x2ExtmulLowI32x4S | SimdOp::I64x2ExtendLowI32x4U | SimdOp::I64x2ExtmulLowI32x4U | SimdOp::I64x2ExtendHighI32x4S | SimdOp::I64x2ExtmulHighI32x4S | SimdOp::I64x2ExtendHighI32x4U | SimdOp::I64x2ExtmulHighI32x4U | SimdOp::I16x8ExtaddPairwiseI8x16S | SimdOp::I16x8ExtaddPairwiseI8x16U | SimdOp::I32x4ExtaddPairwiseI16x8S | SimdOp::I32x4ExtaddPairwiseI16x8U | SimdOp::I32x4DotI16x8S | SimdOp::I8x16NarrowI16x8S | SimdOp::I8x16NarrowI16x8U | SimdOp::I16x8NarrowI32x4S | SimdOp::I16x8NarrowI32x4U | SimdOp::I8x16Swizzle | SimdOp::I8x16Splat | SimdOp::I16x8Splat | SimdOp::I32x4Splat | SimdOp::I64x2Splat | SimdOp::F32x4Splat | SimdOp::F64x2Splat => true,
        _ => false,
    }
}

/// Bytes per result lane.
pub open spec fn out_width(op: SimdOp) -> nat {
    match op {
        SimdOp::I8x16Eq | SimdOp::I8x16Ne | SimdOp::I8x16LtS | SimdOp::I8x16LtU | SimdOp::I8x16GtS | SimdOp::I8x16GtU | SimdOp::I8x16LeS | SimdOp::I8x16LeU | SimdOp::I8x16GeS | SimdOp::I8x16GeU | SimdOp::I8x16Add | SimdOp::I8x16Sub | SimdOp::I8x16AddSatS | SimdOp::I8x16AddSatU | SimdOp::I8x16SubSatS | SimdOp::I8x16SubSatU | SimdOp::I8x16MinS | SimdOp::I8x16MinU | SimdOp::I8x16MaxS | SimdOp::I8x16MaxU | SimdOp::I8x16AvgrU | SimdOp::I8x16Abs | SimdOp::I8x16Neg | SimdOp::I8x16Shl | SimdOp::I8x16ShrS | SimdOp::I8x16ShrU | SimdOp::I8x16Popcnt | SimdOp::I8x16NarrowI16x8S | SimdOp::I8x16NarrowI16x8U | SimdOp::I8x16Swizzle | SimdOp::I8x16Splat => 1,
        SimdOp::I16x8Eq | SimdOp::I16x8Ne | SimdOp::I16x8LtS | SimdOp::I16x8LtU | SimdOp::I16x8GtS | SimdOp::I16x8GtU | SimdOp::I16x8LeS | SimdOp::I16x8LeU | SimdOp::I16x8GeS | SimdOp::I16x8GeU | SimdOp::I16x8Add | SimdOp::I16x8Sub | SimdOp::I16x8Mul | SimdOp::I16x8AddSatS | SimdOp::I16x8AddSatU | SimdOp::I16x8SubSatS | SimdOp::I16x8SubSatU | SimdOp::I16x8MinS | SimdOp::I16x8MinU | SimdOp::I16x8MaxS | SimdOp::I16x8MaxU | SimdOp::I16x8AvgrU | SimdOp::I16x8Q15mulrSatS | SimdOp::I16x8Abs | SimdOp::I16x8Neg | SimdOp::I16x8Shl | SimdOp::I16x8ShrS | SimdOp::I16x8ShrU | SimdOp::I16x8ExtendLowI8x16S | SimdOp::I16x8ExtmulLowI8x16S | SimdOp::I16x8ExtendLowI8x16U | SimdOp::I16x8ExtmulLowI8x16U | SimdOp::I16x8ExtendHighI8x16S | SimdOp::I16x8ExtmulHighI8x16S | SimdOp::I16x8ExtendHighI8x16U | SimdOp::I16x8ExtmulHighI8x16U | SimdOp::I16x8ExtaddPairwiseI8x16S | SimdOp::I16x8ExtaddPairwiseI8x16U | SimdOp::I16x8NarrowI32x4S | SimdOp::I16x8NarrowI32x4U | SimdOp::I16x8Splat => 2,
        SimdOp::I32x4Eq | SimdOp::I32x4Ne | SimdOp::I32x4LtS | SimdOp::I32x4LtU | SimdOp::I32x4GtS | SimdOp::I32x4GtU | SimdOp::I32x4LeS | SimdOp::I32x4LeU | SimdOp::I32x4GeS | SimdOp::I32x4GeU | SimdOp::I32x4Add | SimdOp::I32x4Sub | SimdOp::I32x4Mul | SimdOp::I32x4MinS | SimdOp::I32x4MinU | SimdOp::I32x4MaxS | SimdOp::I32x4MaxU | SimdOp::I32x4Abs | SimdOp::I32x4Neg | SimdOp::I32x4Shl | SimdOp::I32x4ShrS | SimdOp::I32x4ShrU | SimdOp::F32x4Abs | SimdOp::F32x4Neg | SimdOp::I32x4ExtendLowI16x8S | SimdOp::I32x4ExtmulLowI16x8S | SimdOp::I32x4ExtendLowI16x8U | SimdOp::I32x4ExtmulLowI16x8U | SimdOp::I32x4ExtendHighI16x8S | SimdOp::I32x4ExtmulHighI16x8S | SimdOp::I32x4ExtendHighI16x8U | SimdOp::I32x4ExtmulHighI16x8U | SimdOp::I32x4ExtaddPairwiseI16x8S | SimdOp::I32x4ExtaddPairwiseI16x8U | SimdOp::I32x4DotI16x8S | SimdOp::I32x4Splat | SimdOp::F32x4Splat => 4,
        SimdOp::I64x2Eq | SimdOp::I64x2Ne | SimdOp::I64x2LtS | SimdOp::I64x2GtS | SimdOp::I64x2LeS | SimdOp::I64x2GeS | SimdOp::I64x2Add | SimdOp::I64x2Sub | SimdOp::I64x2Mul | SimdOp::I64x2Abs | SimdOp::I64x2Neg | SimdOp::I64x2Shl | SimdOp::I64x2ShrS | SimdOp::I64x2ShrU | SimdOp::F64x2Abs | SimdOp::F64x2Neg | SimdOp::I64x2ExtendLowI32x4S | SimdOp::I64x2ExtmulLowI32x4S | SimdOp::I64x2ExtendLowI32x4U | SimdOp::I64x2ExtmulLowI32x4U | SimdOp::I64x2ExtendHighI32x4S | SimdOp::I64x2ExtmulHighI32x4S | SimdOp::I64x2ExtendHighI32x4U | SimdOp::I64x2ExtmulHighI32x4U | SimdOp::I64x2Splat | SimdOp::F64x2Splat => 8,
        _ => 16,
    }
}

/// Bytes per operand lane.
pub open spec fn src_width(op: SimdOp) -> nat {
    match op {
        SimdOp::I8x16Eq | SimdOp::I8x16Ne | SimdOp::I8x16LtS | SimdOp::I8x16LtU | SimdOp::I8x16GtS | SimdOp::I8x16GtU | SimdOp::I8x16LeS | SimdOp::I8x16LeU | SimdOp::I8x16GeS | SimdOp::I8x16GeU | SimdOp::I8x16Add | SimdOp::I8x16Sub | SimdOp::I8x16AddSatS | SimdOp::I8x16AddSatU | SimdOp::I8x16SubSatS | SimdOp::I8x16SubSatU | SimdOp::I8x16MinS | SimdOp::I8x16MinU | SimdOp::I8x16MaxS | SimdOp::I8x16MaxU | SimdOp::I8x16AvgrU | SimdOp::I8x16Abs | SimdOp::I8x16Neg | SimdOp::I8x16Shl | SimdOp::I8x16ShrS | SimdOp::I8x16ShrU | SimdOp::I8x16Popcnt | SimdOp::I16x8ExtendLowI8x16S | SimdOp::I16x8ExtmulLowI8x16S | SimdOp::I16x8ExtendLowI8x16U | SimdOp::I16x8ExtmulLowI8x16U | SimdOp::I16x8ExtendHighI8x16S | SimdOp::I16x8ExtmulHighI8x16S | SimdOp::I16x8ExtendHighI8x16U | SimdOp::I16x8ExtmulHighI8x16U | SimdOp::I16x8ExtaddPairwiseI8x16S | SimdOp::I16x8ExtaddPairwiseI8x16U | SimdOp::I8x16Swizzle | SimdOp::I8x16Splat => 1,
        SimdOp::I16x8Eq | SimdOp::I16x8Ne | SimdOp::I16x8LtS | SimdOp::I16x8LtU | SimdOp::I16x8GtS | SimdOp::I16x8GtU | SimdOp::I16x8LeS | SimdOp::I16x8LeU | SimdOp::I16x8GeS | SimdOp::I16x8GeU | SimdOp::I16x8Add | SimdOp::I16x8Sub | SimdOp::I16x8Mul | SimdOp::I16x8AddSatS | SimdOp::I16x8AddSatU | SimdOp::I16x8SubSatS | SimdOp::I16x8SubSatU | SimdOp::I16x8MinS | SimdOp::I16x8MinU | SimdOp::I16x8MaxS | SimdOp::I16x8MaxU | SimdOp::I16x8AvgrU | SimdOp::I16x8Q15mulrSatS | SimdOp::I16x8Abs | SimdOp::I16x8Neg | SimdOp::I16x8Shl | SimdOp::I16x8ShrS | SimdOp::I16x8ShrU | SimdOp::I32x4ExtendLowI16x8S | SimdOp::I32x4ExtmulLowI16x8S | SimdOp::I32x4ExtendLowI16x8U | SimdOp::I32x4ExtmulLowI16x8U | SimdOp::I32x4ExtendHighI16x8S | SimdOp::I32x4ExtmulHighI16x8S | SimdOp::I32x4ExtendHighI16x8U | SimdOp::I32x4ExtmulHighI16x8U | SimdOp::I32x4ExtaddPairwiseI16x8S | SimdOp::I32x4ExtaddPairwiseI16x8U | SimdOp::I32x4DotI16x8S | SimdOp::I8x16NarrowI16x8S | SimdOp::I8x16NarrowI16x8U | SimdOp::I16x8Splat => 2,
        SimdOp::I32x4Eq | SimdOp::I32x4Ne | SimdOp::I32x4LtS | SimdOp::I32x4LtU | SimdOp::I32x4GtS | SimdOp::I32x4GtU | SimdOp::I32x4LeS | SimdOp::I32x4LeU | SimdOp::I32x4GeS | SimdOp::I32x4GeU | SimdOp::I32x4Add | SimdOp::I32x4Sub | SimdOp::I32x4Mul | SimdOp::I32x4MinS | SimdOp::I32x4MinU | SimdOp::I32x4MaxS | SimdOp::I32x4MaxU | SimdOp::I32x4Abs | SimdOp::I32x4Neg | SimdOp::I32x4Shl | SimdOp::I32x4ShrS | SimdOp::I32x4ShrU | SimdOp::F32x4Abs | SimdOp::F32x4Neg | SimdOp::I64x2ExtendLowI32x4S | SimdOp::I64x2ExtmulLowI32x4S | SimdOp::I64x2ExtendLowI32x4U | SimdOp::I64x2ExtmulLowI32x4U | SimdOp::I64x2ExtendHighI32x4S | SimdOp::I64x2ExtmulHighI32x4S | SimdOp::I64x2ExtendHighI32x4U | SimdOp::I64x2ExtmulHighI32x4U | SimdOp::I16x8NarrowI32x4S | SimdOp::I16x8NarrowI32x4U | SimdOp::I32x4Splat | SimdOp::F32x4Splat => 4,
        SimdOp::I64x2Eq | SimdOp::I64x2Ne | SimdOp::I64x2LtS | SimdOp::I64x2GtS | SimdOp::I64x2LeS | SimdOp::I64x2GeS | SimdOp::I64x2Add | SimdOp::I64x2Sub | SimdOp::I64x2Mul | SimdOp::I64x2Abs | SimdOp::I64x2Neg | SimdOp::I64x2Shl | SimdOp::I64x2ShrS | SimdOp::I64x2ShrU | SimdOp::F64x2Abs | SimdOp::F64x2Neg | SimdOp::I64x2Splat | SimdOp::F64x2Splat => 8,
        _ => 16,
    }
}

/// Result lane `i` of a lane-wise operator on operand bytes `a`, `b` and scalar `s`.
pub open spec fn lane_result(op: SimdOp, a: Seq<u8>, b: Seq<u8>, s: u64, i: int) -> nat {
    let w = out_width(op);
    let sw = src_width(op);
    let x = lane_of(a, w, i);
    let y = lane_of(b, w, i);
    let k = (s % (8 * w) as u64) as nat;
    match op {
        SimdOp::I8x16Eq | SimdOp::I16x8Eq | SimdOp::I32x4Eq | SimdOp::I64x2Eq => ones(x == y, w),
        SimdOp::I8x16Ne | SimdOp::I16x8Ne | SimdOp::I32x4Ne | SimdOp::I64x2Ne => ones(x != y, w),
        SimdOp::I8x16LtS | SimdOp::I16x8LtS | SimdOp::I32x4LtS | SimdOp::I64x2LtS => ones(sgn(x, w) < sgn(y, w), w),
        SimdOp::I8x16LtU | SimdOp::I16x8LtU | SimdOp::I32x4LtU => ones(x < y, w),
        SimdOp::I8x16GtS | SimdOp::I16x8GtS | SimdOp::I32x4GtS | SimdOp::I64x2GtS => ones(sgn(x, w) > sgn(y, w), w),
        SimdOp::I8x16GtU | SimdOp::I16x8GtU | SimdOp::I32x4GtU => ones(x > y, w),
        SimdOp::I8x16LeS | SimdOp::I16x8LeS | SimdOp::I32x4LeS | SimdOp::I64x2LeS => ones(sgn(x, w) <= sgn(y, w), w),
        SimdOp::I8x16LeU | SimdOp::I16x8LeU | SimdOp::I32x4LeU => ones(x <= y, w),
        SimdOp::I8x16GeS | SimdOp::I16x8GeS | SimdOp::I32x4GeS | SimdOp::I64x2GeS => ones(sgn(x, w) >= sgn(y, w), w),
        SimdOp::I8x16GeU | SimdOp::I16x8GeU | SimdOp::I32x4GeU => ones(x >= y, w),
        SimdOp::I8x16Add | SimdOp::I16x8Add | SimdOp::I32x4Add | SimdOp::I64x2Add => wrapw((x + y) as int, w),
        SimdOp::I8x16Sub | SimdOp::I16x8Sub | SimdOp::I32x4Sub | SimdOp::I64x2Sub => wrapw(x - y, w),
        SimdOp::I8x16AddSatS | SimdOp::I16x8AddSatS => sat_s(sgn(x, w) + sgn(y, w), w),
        SimdOp::I8x16AddSatU | SimdOp::I16x8AddSatU => sat_u((x + y) as int, w),
        SimdOp::I8x16SubSatS | SimdOp::I16x8SubSatS => sat_s(sgn(x, w) - sgn(y, w), w),
        SimdOp::I8x16SubSatU | SimdOp::I16x8SubSatU => sat_u(x - y, w),
        SimdOp::I8x16MinS | SimdOp::I16x8MinS | SimdOp::I32x4MinS => if sgn(x, w) <= sgn(y, w) { x } else { y },
        SimdOp::I8x16MinU | SimdOp::I16x8MinU | SimdOp::I32x4MinU => if x <= y { x } else { y },
        SimdOp::I8x16MaxS | SimdOp::I16x8MaxS | SimdOp::I32x4MaxS => if sgn(x, w) >= sgn(y, w) { x } else { y },
        SimdOp::I8x16MaxU | SimdOp::I16x8MaxU | SimdOp::I32x4MaxU => if x >= y { x } else { y },
        SimdOp::I8x16AvgrU | SimdOp::I16x8AvgrU => ((x + y + 1) / 2) as nat,
        SimdOp::I16x8Mul | SimdOp::I32x4Mul | SimdOp::I64x2Mul => wrapw((x * y) as int, w),
        SimdOp::I16x8Q15mulrSatS => sat_s((sgn(x, w) * sgn(y, w) + 0x4000) / 0x8000, w),
        SimdOp::I8x16Abs | SimdOp::I16x8Abs | SimdOp::I32x4Abs | SimdOp::I64x2Abs => wrapw(abs(sgn(x, w)), w),
        SimdOp::I8x16Neg | SimdOp::I16x8Neg | SimdOp::I32x4Neg | SimdOp::I64x2Neg => wrapw(-x, w),
        SimdOp::I8x16Shl | SimdOp::I16x8Shl | SimdOp::I32x4Shl | SimdOp::I64x2Shl => wrapw((x * pow2(k)) as int, w),
        SimdOp::I8x16ShrS | SimdOp::I16x8ShrS | SimdOp::I32x4ShrS | SimdOp::I64x2ShrS => wrapw(sgn(x, w) / (pow2(k) as int), w),
        SimdOp::I8x16ShrU | SimdOp::I16x8ShrU | SimdOp::I32x4ShrU | SimdOp::I64x2ShrU => x / pow2(k),
        SimdOp::I8x16Popcnt => popcount(x, 8),
        SimdOp::F32x4Abs | SimdOp::F64x2Abs => x % (full(w) / 2) as nat,
        SimdOp::F32x4Neg | SimdOp::F64x2Neg => if x >= full(w) / 2 { (x - full(w) / 2) as nat } else { (x + full(w) / 2) as nat },
        SimdOp::I16x8ExtendLowI8x16S | SimdOp::I32x4ExtendLowI16x8S | SimdOp::I64x2ExtendLowI32x4S => wrapw(ext(lane_of(a, sw, i + 0), sw, true), w),
        SimdOp::I16x8ExtmulLowI8x16S | SimdOp::I32x4ExtmulLowI16x8S | SimdOp::I64x2ExtmulLowI32x4S => wrapw(ext(lane_of(a, sw, i + 0), sw, true) * ext(lane_of(b, sw, i + 0), sw, true), w),
        SimdOp::I16x8ExtendLowI8x16U | SimdOp::I32x4ExtendLowI16x8U | SimdOp::I64x2ExtendLowI32x4U => wrapw(ext(lane_of(a, sw, i + 0), sw, false), w),
        SimdOp::I16x8ExtmulLowI8x16U | SimdOp::I32x4ExtmulLowI16x8U | SimdOp::I64x2ExtmulLowI32x4U => wrapw(ext(lane_of(a, sw, i + 0), sw, false) * ext(lane_of(b, sw, i + 0), sw, false), w),
        SimdOp::I16x8ExtendHighI8x16S => wrapw(ext(lane_of(a, sw, i + 8), sw, true), w),
        SimdOp::I16x8ExtmulHighI8x16S => wrapw(ext(lane_of(a, sw, i + 8), sw, true) * ext(lane_of(b, sw, i + 8), sw, true), w),
        SimdOp::I16x8ExtendHighI8x16U => wrapw(ext(lane_of(a, sw, i + 8), sw, false), w),
        SimdOp::I16x8ExtmulHighI8x16U => wrapw(ext(lane_of(a, sw, i + 8), sw, false) * ext(lane_of(b, sw, i + 8), sw, false), w),
        SimdOp::I32x4ExtendHighI16x8S => wrapw(ext(lane_of(a, sw, i + 4), sw, true), w),
        SimdOp::I32x4ExtmulHighI16x8S => wrapw(ext(lane_of(a, sw, i + 4), sw, true) * ext(lane_of(b, sw, i + 4), sw, true), w),
        SimdOp::I32x4ExtendHighI16x8U => wrapw(ext(lane_of(a, sw, i + 4), sw, false), w),
        SimdOp::I32x4ExtmulHighI16x8U => wrapw(ext(lane_of(a, sw, i + 4), sw, false) * ext(lane_of(b, sw, i + 4), sw, false), w),
        SimdOp::I64x2ExtendHighI32x4S => wrapw(ext(lane_of(a, sw, i + 2), sw, true), w),
        SimdOp::I64x2ExtmulHighI32x4S => wrapw(ext(lane_of(a, sw, i + 2), sw, true) * ext(lane_of(b, sw, i + 2), sw, true), w),
        SimdOp::I64x2ExtendHighI32x4U => wrapw(ext(lane_of(a, sw, i + 2), sw, false), w),
        SimdOp::I64x2ExtmulHighI32x4U => wrapw(ext(lane_of(a, sw, i + 2), sw, false) * ext(lane_of(b, sw, i + 2), sw, false), w),
        SimdOp::I16x8ExtaddPairwiseI8x16S | SimdOp::I32x4ExtaddPairwiseI16x8S => wrapw(ext(lane_of(a, sw, 2 * i), sw, true) + ext(lane_of(a, sw, 2 * i + 1), sw, true), w),
        SimdOp::I16x8ExtaddPairwiseI8x16U | SimdOp::I32x4ExtaddPairwiseI16x8U => wrapw(ext(lane_of(a, sw, 2 * i), sw, false) + ext(lane_of(a, sw, 2 * i + 1), sw, false), w),
        SimdOp::I32x4DotI16x8S => wrapw(sgn(lane_of(a, sw, 2 * i), sw) * sgn(lane_of(b, sw, 2 * i), sw) + sgn(lane_of(a, sw, 2 * i + 1), sw) * sgn(lane_of(b, sw, 2 * i + 1), sw), w),
        SimdOp::I8x16NarrowI16x8S => sat_s(sgn(if i < 8 { lane_of(a, sw, i) } else { lane_of(b, sw, i - 8) }, sw), w),
        SimdOp::I8x16NarrowI16x8U => sat_u(sgn(if i < 8 { lane_of(a, sw, i) } else { lane_of(b, sw, i - 8) }, sw), w),
        SimdOp::I16x8NarrowI32x4S => sat_s(sgn(if i < 4 { lane_of(a, sw, i) } else { lane_of(b, sw, i - 4) }, sw), w),
        SimdOp::I16x8NarrowI32x4U => sat_u(sgn(if i < 4 { lane_of(a, sw, i) } else { lane_of(b, sw, i - 4) }, sw), w),
        SimdOp::I8x16Swizzle => if lane_of(b, 1, i) < 16 { lane_of(a, 1, lane_of(b, 1, i) as int) } else { 0 },
        SimdOp::I8x16Splat | SimdOp::I16x8Splat | SimdOp::I32x4Splat | SimdOp::I64x2Splat | SimdOp::F32x4Splat | SimdOp::F64x2Splat => (s as nat) % (full(w) as nat),
        _ => 0,
    }
}

/// The operators whose lanes are floating-point numbers under arithmetic
/// (their evaluation is left to the embedder).
pub open spec fn simd_float(op: SimdOp) -> bool {
    match op {
        SimdOp::F32x4Eq | SimdOp::F32x4Ne | SimdOp::F32x4Lt | SimdOp::F32x4Gt | SimdOp::F32x4Le
        | SimdOp::F32x4Ge | SimdOp::F64x2Eq | SimdOp::F64x2Ne | SimdOp::F64x2Lt | SimdOp::F64x2Gt
        | SimdOp::F64x2Le | SimdOp::F64x2Ge | SimdOp::F32x4DemoteF64x2Zero | SimdOp::F64x2PromoteLowF32x4
        | SimdOp::F32x4Ceil | SimdOp::F32x4Floor | SimdOp::F32x4Trunc | SimdOp::F32x4Nearest
        | SimdOp::F64x2Ceil | SimdOp::F64x2Floor | SimdOp::F64x2Trunc | SimdOp::F64x2Nearest
        | SimdOp::F32x4Sqrt | SimdOp::F32x4Add | SimdOp::F32x4Sub | SimdOp::F32x4Mul | SimdOp::F32x4Div
        | SimdOp::F32x4Min | SimdOp::F32x4Max | SimdOp::F32x4Pmin | SimdOp::F32x4Pmax
        | SimdOp::F64x2Sqrt | SimdOp::F64x2Add | SimdOp::F64x2Sub | SimdOp::F64x2Mul | SimdOp::F64x2Div
        | SimdOp::F64x2Min | SimdOp::F64x2Max | SimdOp::F64x2Pmin | SimdOp::F64x2Pmax
        | SimdOp::I32x4TruncSatF32x4S | SimdOp::I32x4TruncSatF32x4U | SimdOp::F32x4ConvertI32x4S
        | SimdOp::F32x4ConvertI32x4U | SimdOp::I32x4TruncSatF64x2SZero | SimdOp::I32x4TruncSatF64x2UZero
        | SimdOp::F64x2ConvertLowI32x4S | SimdOp::F64x2ConvertLowI32x4U => true,
        _ => false,
    }
}

/// The sign bits of the first `n` lanes, lane `j` at bit `j`.
pub open spec fn bitmask(v: u128, w: nat, n: nat) -> nat
    decreases n,
{
    if n == 0 {
        0
    } else {
        bitmask(v, w, (n - 1) as nat) + if lane(v, w, n - 1) >= full(w) / 2 { pow2((n - 1) as nat) } else { 0 }
    }
}

/// Whether the first `n` lanes are all non-zero.
pub open spec fn all_nonzero(v: u128, w: nat, n: nat) -> bool {
    forall|j: int| 0 <= j < n ==> lane(v, w, j) != 0
}

// ---- lane arithmetic ----

pub fn full_exec(w: usize) -> (r: u128)
    requires
        width_ok(w as nat),
    ensures
        r == full(w as nat),
{
    if w == 1 {
        0x100
    } else if w == 2 {
        0x1_0000
    } else if w == 4 {
        0x1_0000_0000
    } else {
        0x1_0000_0000_0000_0000
    }
}

proof fn lemma_full_pow2(w: nat)
    requires
        width_ok(w),
    ensures
        full(w) == pow2(8 * w),
{
    lemma2_to64();
}

/// The 16 little-endian bytes of `v`.
pub fn bytes_of(v: u128) -> (r: Vec<u8>)
    ensures
        r@ == v128_bytes(v),
{
    let mut out: Vec<u8> = Vec::new();
    let mut k: usize = 0;
    while k < 16
        invariant
            k <= 16,
            out@.len() == k,
        decreases 16 - k,
    {
        out.push(0u8);
        k = k + 1;
    }
    write_le(&mut out, 0, v, 16);
    assert(out@ =~= v128_bytes(v));
    out
}

/// Lane `i` of `w`-byte lanes lies within the 16 bytes.
proof fn lemma_lane_in_bounds(i: int, w: nat)
    requires
        width_ok(w),
        0 <= i < 16int / (w as int),
    ensures
        i * w + w <= 16,
{
    if w == 1 {
        assert(i * w + w <= 16) by (nonlinear_arith) requires w == 1, 0 <= i < 16;
    } else if w == 2 {
        assert(i * w + w <= 16) by (nonlinear_arith) requires w == 2, 0 <= i < 8;
    } else if w == 4 {
        assert(i * w + w <= 16) by (nonlinear_arith) requires w == 4, 0 <= i < 4;
    } else {
        assert(i * w + w <= 16) by (nonlinear_arith) requires w == 8, 0 <= i < 2;
    }
}

/// Reads lane `i` of `w`-byte lanes.
pub fn rd(v: &Vec<u8>, w: usize, i: usize) -> (r: u64)
    requires
        v@.len() == 16,
        width_ok(w as nat),
        i < 16int / (w as int),
    ensures
        r == lane_of(v@, w as nat, i as int),
        r < full(w as nat),
{
    proof {
        lemma_lane_in_bounds(i as int, w as nat);
    }
    let x = read_le(v, i * w, w);
    proof {
        lemma_le_value_bound(v@.subrange((i * w) as int, (i * w + w) as int));
        lemma_full_pow2(w as nat);
        lemma2_to64();
    }
    x as u64
}

pub fn sgn_exec(x: u64, w: usize) -> (r: i128)
    requires
        width_ok(w as nat),
        x < full(w as nat),
    ensures
        r == sgn(x as nat, w as nat),
{
    let f = full_exec(w);
    if (x as u128) >= f / 2 {
        x as i128 - f as i128
    } else {
        x as i128
    }
}

pub fn ext_exec(x: u64, w: usize, signed: bool) -> (r: i128)
    requires
        width_ok(w as nat),
        x < full(w as nat),
    ensures
        r == ext(x as nat, w as nat, signed),
        -(full(w as nat) / 2) <= r < full(w as nat),
{
    if signed { sgn_exec(x, w) } else { x as i128 }
}

pub fn wrap_exec(v: i128, w: usize) -> (r: u64)
    requires
        width_ok(w as nat),
        -0x8000_0000_0000_0000_0000_0000_0000_0000 < v,
    ensures
        r == wrapw(v as int, w as nat),
        r < full(w as nat),
{
    let f = full_exec(w);
    if v >= 0 {
        let m = (v as u128) % f;
        m as u64
    } else {
        let m = ((0 - v) as u128) % f;
        proof {
            vstd::arithmetic::div_mod::lemma_fundamental_div_mod((0 - v) as int, f as int);
            vstd::arithmetic::div_mod::lemma_mod_pos_bound((0 - v) as int, f as int);
            let q = (0 - v) as int / f as int;
            if m == 0 {
                vstd::arithmetic::div_mod::lemma_fundamental_div_mod_converse_mod(v as int, f as int, -q, 0);
            } else {
                vstd::arithmetic::div_mod::lemma_fundamental_div_mod_converse_mod(v as int, f as int, -q - 1, f - m);
            }
        }
        if m == 0 { 0 } else { (f - m) as u64 }
    }
}

pub fn sat_s_exec(v: i128, w: usize) -> (r: u64)
    requires
        width_ok(w as nat),
    ensures
        r == sat_s(v as int, w as nat),
        r < full(w as nat),
{
    let h = (full_exec(w) / 2) as i128;
    let c = if v < 0 - h { 0 - h } else if v > h - 1 { h - 1 } else { v };
    wrap_exec(c, w)
}

pub fn sat_u_exec(v: i128, w: usize) -> (r: u64)
    requires
        width_ok(w as nat),
    ensures
        r == sat_u(v as int, w as nat),
        r < full(w as nat),
{
    let f = full_exec(w) as i128;
    if v < 0 { 0 } else if v > f - 1 { (f - 1) as u64 } else { v as u64 }
}

pub fn ones_exec(b: bool, w: usize) -> (r: u64)
    requires
        width_ok(w as nat),
    ensures
        r == ones(b, w as nat),
        r < full(w as nat),
{
    if b { (full_exec(w) - 1) as u64 } else { 0 }
}

/// Product of two extended lanes of at most four bytes.
fn mul_small(x: i128, y: i128) -> (r: i128)
    requires
        -0x1_0000_0000 <= x <= 0x1_0000_0000,
        -0x1_0000_0000 <= y <= 0x1_0000_0000,
    ensures
        r == x * y,
        -0x1_0000_0000_0000_0000 <= r <= 0x1_0000_0000_0000_0000,
{
    assert(-0x1_0000_0000_0000_0000 <= x * y <= 0x1_0000_0000_0000_0000) by (nonlinear_arith)
        requires -0x1_0000_0000 <= x <= 0x1_0000_0000, -0x1_0000_0000 <= y <= 0x1_0000_0000;
    x * y
}

fn mul_lane(x: u64, y: u64, w: usize) -> (r: u64)
    requires
        width_ok(w as nat),
        x < full(w as nat),
        y < full(w as nat),
    ensures
        r == wrapw((x * y) as int, w as nat),
        r < full(w as nat),
{
    if w == 8 {
        x.wrapping_mul(y)
    } else {
        assert(x * y < 0x1_0000_0000_0000_0000) by (nonlinear_arith)
            requires x < 0x1_0000_0000, y < 0x1_0000_0000;
        wrap_exec(x as i128 * y as i128, w)
    }
}

fn q15_lane(x: u64, y: u64) -> (r: u64)
    requires
        x < 0x1_0000,
        y < 0x1_0000,
    ensures
        r == sat_s((sgn(x as nat, 2) * sgn(y as nat, 2) + 0x4000) / 0x8000, 2),
        r < 0x1_0000,
{
    let sx = sgn_exec(x, 2);
    let sy = sgn_exec(y, 2);
    assert(-0x4000_0000 <= sx * sy <= 0x4000_0000) by (nonlinear_arith)
        requires -0x8000 <= sx <= 0x7fff, -0x8000 <= sy <= 0x7fff;
    let p = sx * sy + 0x4000;
    let q = if p >= 0 { p / 0x8000 } else { 0 - ((0 - p + 0x7fff) / 0x8000) };
    assert(q == p / 0x8000);
    sat_s_exec(q, 2)
}

fn abs_lane(x: u64, w: usize) -> (r: u64)
    requires
        width_ok(w as nat),
        x < full(w as nat),
    ensures
        r == wrapw(abs(sgn(x as nat, w as nat)), w as nat),
        r < full(w as nat),
{
    let v = sgn_exec(x, w);
    wrap_exec(if v < 0 { 0 - v } else { v }, w)
}

fn popcnt8(x: u64) -> (r: u64)
    requires
        x < 256,
    ensures
        r == popcount(x as nat, 8),
        r <= 8,
{
    let mut n: u64 = 0;
    let mut v: u64 = x;
    let mut i: u64 = 0;
    while i < 8
        invariant
            i <= 8,
            n <= i,
            n + popcount(v as nat, (8 - i) as nat) == popcount(x as nat, 8),
        decreases 8 - i,
    {
        n = n + (v % 2);
        v = v / 2;
        i = i + 1;
    }
    n
}

fn fabs_lane(x: u64, w: usize) -> (r: u64)
    requires
        width_ok(w as nat),
        x < full(w as nat),
    ensures
        r == (x as nat) % ((full(w as nat) / 2) as nat),
        r < full(w as nat),
{
    let h = (full_exec(w) / 2) as u64;
    proof {
        if x >= h {
            vstd::arithmetic::div_mod::lemma_fundamental_div_mod_converse_mod(x as int, h as int, 1, x - h);
        } else {
            vstd::arithmetic::div_mod::lemma_fundamental_div_mod_converse_mod(x as int, h as int, 0, x as int);
        }
    }
    if x >= h { x - h } else { x }
}

fn fneg_lane(x: u64, w: usize) -> (r: u64)
    requires
        width_ok(w as nat),
        x < full(w as nat),
    ensures
        r == if x >= full(w as nat) / 2 { (x - full(w as nat) / 2) as nat } else { (x + full(w as nat) / 2) as nat },
        r < full(w as nat),
{
    let h = (full_exec(w) / 2) as u64;
    if x >= h { x - h } else { x + h }
}

/// `2^k` for `k < 64`.
pub fn pow2_exec(k: u64) -> (r: u128)
    requires
        k < 64,
    ensures
        r == pow2(k as nat),
        r <= 0x8000_0000_0000_0000,
{
    let mut r: u128 = 1;
    let mut i: u64 = 0;
    proof {
        lemma2_to64();
    }
    while i < k
        invariant
            i <= k < 64,
            r == pow2(i as nat),
            r <= 0x8000_0000_0000_0000,
        decreases k - i,
    {
        proof {
            lemma_pow2_unfold((i + 1) as nat);
            if i + 1 < 63 {
                vstd::arithmetic::power2::lemma_pow2_strictly_increases((i + 1) as nat, 63);
            }
            lemma2_to64();
            vstd::arithmetic::power2::lemma2_to64_rest();
        }
        r = r * 2;
        i = i + 1;
    }
    r
}

fn shl_lane(x: u64, w: usize, s: u64) -> (r: u64)
    requires
        width_ok(w as nat),
        x < full(w as nat),
    ensures
        r == wrapw((x * pow2((s % (8 * w) as u64) as nat)) as int, w as nat),
        r < full(w as nat),
{
    let k = s % (8 * w as u64);
    let p = pow2_exec(k);
    proof {
        vstd::arithmetic::mul::lemma_mul_inequality(p as int, 0x8000_0000_0000_0000, x as int);
        vstd::arithmetic::mul::lemma_mul_is_commutative(p as int, x as int);
    }
    wrap_exec((x as u128 * p) as i128, w)
}

fn shru_lane(x: u64, w: usize, s: u64) -> (r: u64)
    requires
        width_ok(w as nat),
        x < full(w as nat),
    ensures
        r == (x as nat) / pow2((s % (8 * w) as u64) as nat),
        r < full(w as nat),
{
    let k = s % (8 * w as u64);
    let p = pow2_exec(k);
    proof {
        lemma_pow2_pos(k as nat);
    }
    ((x as u128) / p) as u64
}

fn shrs_lane(x: u64, w: usize, s: u64) -> (r: u64)
    requires
        width_ok(w as nat),
        x < full(w as nat),
    ensures
        r == wrapw(sgn(x as nat, w as nat) / (pow2((s % (8 * w) as u64) as nat) as int), w as nat),
        r < full(w as nat),
{
    let k = s % (8 * w as u64);
    let p = pow2_exec(k) as i128;
    proof {
        lemma_pow2_pos(k as nat);
    }
    let v = sgn_exec(x, w);
    let q = if v >= 0 { v / p } else { 0 - ((0 - v + p - 1) / p) };
    proof {
        if v < 0 {
            let num: int = 0 - v + p - 1;
            let m = num / (p as int);
            vstd::arithmetic::div_mod::lemma_fundamental_div_mod(num, p as int);
            vstd::arithmetic::div_mod::lemma_mod_pos_bound(num, p as int);
            let rr = num % (p as int);
            assert(v == (0 - m) * p + (p - 1 - rr)) by (nonlinear_arith)
                requires num == p * m + rr, num == 0 - v + p - 1;
            vstd::arithmetic::div_mod::lemma_fundamental_div_mod_converse_div(v as int, p as int, 0 - m, p - 1 - rr);
        }
        assert(-0x8000_0000_0000_0000 <= q <= 0x8000_0000_0000_0000) by (nonlinear_arith)
            requires q == v / p, -0x8000_0000_0000_0000 <= v < 0x8000_0000_0000_0000, p >= 1;
    }
    wrap_exec(q, w)
}

fn dot_lane(a: &Vec<u8>, b: &Vec<u8>, i: usize) -> (r: u64)
    requires
        a@.len() == 16,
        b@.len() == 16,
        i < 4,
    ensures
        r == wrapw(sgn(lane_of(a@, 2, 2 * i), 2) * sgn(lane_of(b@, 2, 2 * i), 2)
            + sgn(lane_of(a@, 2, 2 * i + 1), 2) * sgn(lane_of(b@, 2, 2 * i + 1), 2), 4),
        r < 0x1_0000_0000,
{
    let x0 = sgn_exec(rd(a, 2, 2 * i), 2);
    let y0 = sgn_exec(rd(b, 2, 2 * i), 2);
    let x1 = sgn_exec(rd(a, 2, 2 * i + 1), 2);
    let y1 = sgn_exec(rd(b, 2, 2 * i + 1), 2);
    assert(-0x4000_0000 <= x0 * y0 <= 0x4000_0000) by (nonlinear_arith)
        requires -0x8000 <= x0 <= 0x7fff, -0x8000 <= y0 <= 0x7fff;
    assert(-0x4000_0000 <= x1 * y1 <= 0x4000_0000) by (nonlinear_arith)
        requires -0x8000 <= x1 <= 0x7fff, -0x8000 <= y1 <= 0x7fff;
    wrap_exec(x0 * y0 + x1 * y1, 4)
}

fn swizzle_lane(a: &Vec<u8>, b: &Vec<u8>, i: usize) -> (r: u64)
    requires
        a@.len() == 16,
        b@.len() == 16,
        i < 16,
    ensures
        r == (if lane_of(b@, 1, i as int) < 16 { lane_of(a@, 1, lane_of(b@, 1, i as int) as int) } else { 0 }),
        r < 0x100,
{
    let j = rd(b, 1, i);
    if j < 16 { rd(a, 1, j as usize) } else { 0 }
}

fn splat_lane(s: u64, w: usize) -> (r: u64)
    requires
        width_ok(w as nat),
    ensures
        r == (s as nat) % (full(w as nat) as nat),
        r < full(w as nat),
{
    ((s as u128) % full_exec(w)) as u64
}

pub fn out_width_exec(op: SimdOp) -> (r: usize)
    ensures
        r == out_width(op),
{
    match op {
        SimdOp::I8x16Eq | SimdOp::I8x16Ne | SimdOp::I8x16LtS | SimdOp::I8x16LtU | SimdOp::I8x16GtS | SimdOp::I8x16GtU | SimdOp::I8x16LeS | SimdOp::I8x16LeU | SimdOp::I8x16GeS | SimdOp::I8x16GeU | SimdOp::I8x16Add | SimdOp::I8x16Sub | SimdOp::I8x16AddSatS | SimdOp::I8x16AddSatU | SimdOp::I8x16SubSatS | SimdOp::I8x16SubSatU | SimdOp::I8x16MinS | SimdOp::I8x16MinU | SimdOp::I8x16MaxS | SimdOp::I8x16MaxU | SimdOp::I8x16AvgrU | SimdOp::I8x16Abs | SimdOp::I8x16Neg | SimdOp::I8x16Shl | SimdOp::I8x16ShrS | SimdOp::I8x16ShrU | SimdOp::I8x16Popcnt | SimdOp::I8x16NarrowI16x8S | SimdOp::I8x16NarrowI16x8U | SimdOp::I8x16Swizzle | SimdOp::I8x16Splat => 1,
        SimdOp::I16x8Eq | SimdOp::I16x8Ne | SimdOp::I16x8LtS | SimdOp::I16x8LtU | SimdOp::I16x8GtS | SimdOp::I16x8GtU | SimdOp::I16x8LeS | SimdOp::I16x8LeU | SimdOp::I16x8GeS | SimdOp::I16x8GeU | SimdOp::I16x8Add | SimdOp::I16x8Sub | SimdOp::I16x8Mul | SimdOp::I16x8AddSatS | SimdOp::I16x8AddSatU | SimdOp::I16x8SubSatS | SimdOp::I16x8SubSatU | SimdOp::I16x8MinS | SimdOp::I16x8MinU | SimdOp::I16x8MaxS | SimdOp::I16x8MaxU | SimdOp::I16x8AvgrU | SimdOp::I16x8Q15mulrSatS | SimdOp::I16x8Abs | SimdOp::I16x8Neg | SimdOp::I16x8Shl | SimdOp::I16x8ShrS | SimdOp::I16x8ShrU | SimdOp::I16x8ExtendLowI8x16S | SimdOp::I16x8ExtmulLowI8x16S | SimdOp::I16x8ExtendLowI8x16U | SimdOp::I16x8ExtmulLowI8x16U | SimdOp::I16x8ExtendHighI8x16S | SimdOp::I16x8ExtmulHighI8x16S | SimdOp::I16x8ExtendHighI8x16U | SimdOp::I16x8ExtmulHighI8x16U | SimdOp::I16x8ExtaddPairwiseI8x16S | SimdOp::I16x8ExtaddPairwiseI8x16U | SimdOp::I16x8NarrowI32x4S | SimdOp::I16x8NarrowI32x4U | SimdOp::I16x8Splat => 2,
        SimdOp::I32x4Eq | SimdOp::I32x4Ne | SimdOp::I32x4LtS | SimdOp::I32x4LtU | SimdOp::I32x4GtS | SimdOp::I32x4GtU | SimdOp::I32x4LeS | SimdOp::I32x4LeU | SimdOp::I32x4GeS | SimdOp::I32x4GeU | SimdOp::I32x4Add | SimdOp::I32x4Sub | SimdOp::I32x4Mul | SimdOp::I32x4MinS | SimdOp::I32x4MinU | SimdOp::I32x4MaxS | SimdOp::I32x4MaxU | SimdOp::I32x4Abs | SimdOp::I32x4Neg | SimdOp::I32x4Shl | SimdOp::I32x4ShrS | SimdOp::I32x4ShrU | SimdOp::F32x4Abs | SimdOp::F32x4Neg | SimdOp::I32x4ExtendLowI16x8S | SimdOp::I32x4ExtmulLowI16x8S | SimdOp::I32x4ExtendLowI16x8U | SimdOp::I32x4ExtmulLowI16x8U | SimdOp::I32x4ExtendHighI16x8S | SimdOp::I32x4ExtmulHighI16x8S | SimdOp::I32x4ExtendHighI16x8U | SimdOp::I32x4ExtmulHighI16x8U | SimdOp::I32x4ExtaddPairwiseI16x8S | SimdOp::I32x4ExtaddPairwiseI16x8U | SimdOp::I32x4DotI16x8S | SimdOp::I32x4Splat | SimdOp::F32x4Splat => 4,
        SimdOp::I64x2Eq | SimdOp::I64x2Ne | SimdOp::I64x2LtS | SimdOp::I64x2GtS | SimdOp::I64x2LeS | SimdOp::I64x2GeS | SimdOp::I64x2Add | SimdOp::I64x2Sub | SimdOp::I64x2Mul | SimdOp::I64x2Abs | SimdOp::I64x2Neg | SimdOp::I64x2Shl | SimdOp::I64x2ShrS | SimdOp::I64x2ShrU | SimdOp::F64x2Abs | SimdOp::F64x2Neg | SimdOp::I64x2ExtendLowI32x4S | SimdOp::I64x2ExtmulLowI32x4S | SimdOp::I64x2ExtendLowI32x4U | SimdOp::I64x2ExtmulLowI32x4U | SimdOp::I64x2ExtendHighI32x4S | SimdOp::I64x2ExtmulHighI32x4S | SimdOp::I64x2ExtendHighI32x4U | SimdOp::I64x2ExtmulHighI32x4U | SimdOp::I64x2Splat | SimdOp::F64x2Splat => 8,
        _ => 16,
    }
}

pub fn src_width_exec(op: SimdOp) -> (r: usize)
    ensures
        r == src_width(op),
{
    match op {
        SimdOp::I8x16Eq | SimdOp::I8x16Ne | SimdOp::I8x16LtS | SimdOp::I8x16LtU | SimdOp::I8x16GtS | SimdOp::I8x16GtU | SimdOp::I8x16LeS | SimdOp::I8x16LeU | SimdOp::I8x16GeS | SimdOp::I8x16GeU | SimdOp::I8x16Add | SimdOp::I8x16Sub | SimdOp::I8x16AddSatS | SimdOp::I8x16AddSatU | SimdOp::I8x16SubSatS | SimdOp::I8x16SubSatU | SimdOp::I8x16MinS | SimdOp::I8x16MinU | SimdOp::I8x16MaxS | SimdOp::I8x16MaxU | SimdOp::I8x16AvgrU | SimdOp::I8x16Abs | SimdOp::I8x16Neg | SimdOp::I8x16Shl | SimdOp::I8x16ShrS | SimdOp::I8x16ShrU | SimdOp::I8x16Popcnt | SimdOp::I16x8ExtendLowI8x16S | SimdOp::I16x8ExtmulLowI8x16S | SimdOp::I16x8ExtendLowI8x16U | SimdOp::I16x8ExtmulLowI8x16U | SimdOp::I16x8ExtendHighI8x16S | SimdOp::I16x8ExtmulHighI8x16S | SimdOp::I16x8ExtendHighI8x16U | SimdOp::I16x8ExtmulHighI8x16U | SimdOp::I16x8ExtaddPairwiseI8x16S | SimdOp::I16x8ExtaddPairwiseI8x16U | SimdOp::I8x16Swizzle | SimdOp::I8x16Splat => 1,
        SimdOp::I16x8Eq | SimdOp::I16x8Ne | SimdOp::I16x8LtS | SimdOp::I16x8LtU | SimdOp::I16x8GtS | SimdOp::I16x8GtU | SimdOp::I16x8LeS | SimdOp::I16x8LeU | SimdOp::I16x8GeS | SimdOp::I16x8GeU | SimdOp::I16x8Add | SimdOp::I16x8Sub | SimdOp::I16x8Mul | SimdOp::I16x8AddSatS | SimdOp::I16x8AddSatU | SimdOp::I16x8SubSatS | SimdOp::I16x8SubSatU | SimdOp::I16x8MinS | SimdOp::I16x8MinU | SimdOp::I16x8MaxS | SimdOp::I16x8MaxU | SimdOp::I16x8AvgrU | SimdOp::I16x8Q15mulrSatS | SimdOp::I16x8Abs | SimdOp::I16x8Neg | SimdOp::I16x8Shl | SimdOp::I16x8ShrS | SimdOp::I16x8ShrU | SimdOp::I32x4ExtendLowI16x8S | SimdOp::I32x4ExtmulLowI16x8S | SimdOp::I32x4ExtendLowI16x8U | SimdOp::I32x4ExtmulLowI16x8U | SimdOp::I32x4ExtendHighI16x8S | SimdOp::I32x4ExtmulHighI16x8S | SimdOp::I32x4ExtendHighI16x8U | SimdOp::I32x4ExtmulHighI16x8U | SimdOp::I32x4ExtaddPairwiseI16x8S | SimdOp::I32x4ExtaddPairwiseI16x8U | SimdOp::I32x4DotI16x8S | SimdOp::I8x16NarrowI16x8S | SimdOp::I8x16NarrowI16x8U | SimdOp::I16x8Splat => 2,
        SimdOp::I32x4Eq | SimdOp::I32x4Ne | SimdOp::I32x4LtS | SimdOp::I32x4LtU | SimdOp::I32x4GtS | SimdOp::I32x4GtU | SimdOp::I32x4LeS | SimdOp::I32x4LeU | SimdOp::I32x4GeS | SimdOp::I32x4GeU | SimdOp::I32x4Add | SimdOp::I32x4Sub | SimdOp::I32x4Mul | SimdOp::I32x4MinS | SimdOp::I32x4MinU | SimdOp::I32x4MaxS | SimdOp::I32x4MaxU | SimdOp::I32x4Abs | SimdOp::I32x4Neg | SimdOp::I32x4Shl | SimdOp::I32x4ShrS | SimdOp::I32x4ShrU | SimdOp::F32x4Abs | SimdOp::F32x4Neg | SimdOp::I64x2ExtendLowI32x4S | SimdOp::I64x2ExtmulLowI32x4S | SimdOp::I64x2ExtendLowI32x4U | SimdOp::I64x2ExtmulLowI32x4U | SimdOp::I64x2ExtendHighI32x4S | SimdOp::I64x2ExtmulHighI32x4S | SimdOp::I64x2ExtendHighI32x4U | SimdOp::I64x2ExtmulHighI32x4U | SimdOp::I16x8NarrowI32x4S | SimdOp::I16x8NarrowI32x4U | SimdOp::I32x4Splat | SimdOp::F32x4Splat => 4,
        SimdOp::I64x2Eq | SimdOp::I64x2Ne | SimdOp::I64x2LtS | SimdOp::I64x2GtS | SimdOp::I64x2LeS | SimdOp::I64x2GeS | SimdOp::I64x2Add | SimdOp::I64x2Sub | SimdOp::I64x2Mul | SimdOp::I64x2Abs | SimdOp::I64x2Neg | SimdOp::I64x2Shl | SimdOp::I64x2ShrS | SimdOp::I64x2ShrU | SimdOp::F64x2Abs | SimdOp::F64x2Neg | SimdOp::I64x2Splat | SimdOp::F64x2Splat => 8,
        _ => 16,
    }
}

/// One result lane of a lane-wise operator.
#[verifier::spinoff_prover]
#[verifier::rlimit(60)]
fn lane_calc(op: SimdOp, a: &Vec<u8>, b: &Vec<u8>, s: u64, i: usize) -> (r: u64)
    requires
        lanewise(op),
        a@.len() == 16,
        b@.len() == 16,
        i < 16int / (out_width(op) as int),
    ensures
        r == lane_result(op, a@, b@, s, i as int),
        r < full(out_width(op)),
{
    let w = out_width_exec(op);
    let sw = src_width_exec(op);
    let x = rd(a, w, i);
    let y = rd(b, w, i);
    match op {
        SimdOp::I8x16Eq | SimdOp::I16x8Eq | SimdOp::I32x4Eq | SimdOp::I64x2Eq => ones_exec(x == y, w),
        SimdOp::I8x16Ne | SimdOp::I16x8Ne | SimdOp::I32x4Ne | SimdOp::I64x2Ne => ones_exec(x != y, w),
        SimdOp::I8x16LtS | SimdOp::I16x8LtS | SimdOp::I32x4LtS | SimdOp::I64x2LtS => ones_exec(sgn_exec(x, w) < sgn_exec(y, w), w),
        SimdOp::I8x16LtU | SimdOp::I16x8LtU | SimdOp::I32x4LtU => ones_exec(x < y, w),
        SimdOp::I8x16GtS | SimdOp::I16x8GtS | SimdOp::I32x4GtS | SimdOp::I64x2GtS => ones_exec(sgn_exec(x, w) > sgn_exec(y, w), w),
        SimdOp::I8x16GtU | SimdOp::I16x8GtU | SimdOp::I32x4GtU => ones_exec(x > y, w),
        SimdOp::I8x16LeS | SimdOp::I16x8LeS | SimdOp::I32x4LeS | SimdOp::I64x2LeS => ones_exec(sgn_exec(x, w) <= sgn_exec(y, w), w),
        SimdOp::I8x16LeU | SimdOp::I16x8LeU | SimdOp::I32x4LeU => ones_exec(x <= y, w),
        SimdOp::I8x16GeS | SimdOp::I16x8GeS | SimdOp::I32x4GeS | SimdOp::I64x2GeS => ones_exec(sgn_exec(x, w) >= sgn_exec(y, w), w),
        SimdOp::I8x16GeU | SimdOp::I16x8GeU | SimdOp::I32x4GeU => ones_exec(x >= y, w),
        SimdOp::I8x16Add | SimdOp::I16x8Add | SimdOp::I32x4Add | SimdOp::I64x2Add => wrap_exec(x as i128 + y as i128, w),
        SimdOp::I8x16Sub | SimdOp::I16x8Sub | SimdOp::I32x4Sub | SimdOp::I64x2Sub => wrap_exec(x as i128 - y as i128, w),
        SimdOp::I8x16AddSatS | SimdOp::I16x8AddSatS => sat_s_exec(sgn_exec(x, w) + sgn_exec(y, w), w),
        SimdOp::I8x16AddSatU | SimdOp::I16x8AddSatU => sat_u_exec(x as i128 + y as i128, w),
        SimdOp::I8x16SubSatS | SimdOp::I16x8SubSatS => sat_s_exec(sgn_exec(x, w) - sgn_exec(y, w), w),
        SimdOp::I8x16SubSatU | SimdOp::I16x8SubSatU => sat_u_exec(x as i128 - y as i128, w),
        SimdOp::I8x16MinS | SimdOp::I16x8MinS | SimdOp::I32x4MinS => if sgn_exec(x, w) <= sgn_exec(y, w) { x } else { y },
        SimdOp::I8x16MinU | SimdOp::I16x8MinU | SimdOp::I32x4MinU => if x <= y { x } else { y },
        SimdOp::I8x16MaxS | SimdOp::I16x8MaxS | SimdOp::I32x4MaxS => if sgn_exec(x, w) >= sgn_exec(y, w) { x } else { y },
        SimdOp::I8x16MaxU | SimdOp::I16x8MaxU | SimdOp::I32x4MaxU => if x >= y { x } else { y },
        SimdOp::I8x16AvgrU | SimdOp::I16x8AvgrU => ((x as u128 + y as u128 + 1) / 2) as u64,
        SimdOp::I16x8Mul | SimdOp::I32x4Mul | SimdOp::I64x2Mul => mul_lane(x, y, w),
        SimdOp::I16x8Q15mulrSatS => q15_lane(x, y),
        SimdOp::I8x16Abs | SimdOp::I16x8Abs | SimdOp::I32x4Abs | SimdOp::I64x2Abs => abs_lane(x, w),
        SimdOp::I8x16Neg | SimdOp::I16x8Neg | SimdOp::I32x4Neg | SimdOp::I64x2Neg => wrap_exec(0 - x as i128, w),
        SimdOp::I8x16Shl | SimdOp::I16x8Shl | SimdOp::I32x4Shl | SimdOp::I64x2Shl => shl_lane(x, w, s),
        SimdOp::I8x16ShrS | SimdOp::I16x8ShrS | SimdOp::I32x4ShrS | SimdOp::I64x2ShrS => shrs_lane(x, w, s),
        SimdOp::I8x16ShrU | SimdOp::I16x8ShrU | SimdOp::I32x4ShrU | SimdOp::I64x2ShrU => shru_lane(x, w, s),
        SimdOp::I8x16Popcnt => popcnt8(x),
        SimdOp::F32x4Abs | SimdOp::F64x2Abs => fabs_lane(x, w),
        SimdOp::F32x4Neg | SimdOp::F64x2Neg => fneg_lane(x, w),
        SimdOp::I16x8ExtendLowI8x16S | SimdOp::I32x4ExtendLowI16x8S | SimdOp::I64x2ExtendLowI32x4S => wrap_exec(ext_exec(rd(a, sw, i + 0), sw, true), w),
        SimdOp::I16x8ExtmulLowI8x16S | SimdOp::I32x4ExtmulLowI16x8S | SimdOp::I64x2ExtmulLowI32x4S => wrap_exec(mul_small(ext_exec(rd(a, sw, i + 0), sw, true), ext_exec(rd(b, sw, i + 0), sw, true)), w),
        SimdOp::I16x8ExtendLowI8x16U | SimdOp::I32x4ExtendLowI16x8U | SimdOp::I64x2ExtendLowI32x4U => wrap_exec(ext_exec(rd(a, sw, i + 0), sw, false), w),
        SimdOp::I16x8ExtmulLowI8x16U | SimdOp::I32x4ExtmulLowI16x8U | SimdOp::I64x2ExtmulLowI32x4U => wrap_exec(mul_small(ext_exec(rd(a, sw, i + 0), sw, false), ext_exec(rd(b, sw, i + 0), sw, false)), w),
        SimdOp::I16x8ExtendHighI8x16S => wrap_exec(ext_exec(rd(a, sw, i + 8), sw, true), w),
        SimdOp::I16x8ExtmulHighI8x16S => wrap_exec(mul_small(ext_exec(rd(a, sw, i + 8), sw, true), ext_exec(rd(b, sw, i + 8), sw, true)), w),
        SimdOp::I16x8ExtendHighI8x16U => wrap_exec(ext_exec(rd(a, sw, i + 8), sw, false), w),
        SimdOp::I16x8ExtmulHighI8x16U => wrap_exec(mul_small(ext_exec(rd(a, sw, i + 8), sw, false), ext_exec(rd(b, sw, i + 8), sw, false)), w),
        SimdOp::I32x4ExtendHighI16x8S => wrap_exec(ext_exec(rd(a, sw, i + 4), sw, true), w),
        SimdOp::I32x4ExtmulHighI16x8S => wrap_exec(mul_small(ext_exec(rd(a, sw, i + 4), sw, true), ext_exec(rd(b, sw, i + 4), sw, true)), w),
        SimdOp::I32x4ExtendHighI16x8U => wrap_exec(ext_exec(rd(a, sw, i + 4), sw, false), w),
        SimdOp::I32x4ExtmulHighI16x8U => wrap_exec(mul_small(ext_exec(rd(a, sw, i + 4), sw, false), ext_exec(rd(b, sw, i + 4), sw, false)), w),
        SimdOp::I64x2ExtendHighI32x4S => wrap_exec(ext_exec(rd(a, sw, i + 2), sw, true), w),
        SimdOp::I64x2ExtmulHighI32x4S => wrap_exec(mul_small(ext_exec(rd(a, sw, i + 2), sw, true), ext_exec(rd(b, sw, i + 2), sw, true)), w),
        SimdOp::I64x2ExtendHighI32x4U => wrap_exec(ext_exec(rd(a, sw, i + 2), sw, false), w),
        SimdOp::I64x2ExtmulHighI32x4U => wrap_exec(mul_small(ext_exec(rd(a, sw, i + 2), sw, false), ext_exec(rd(b, sw, i + 2), sw, false)), w),
        SimdOp::I16x8ExtaddPairwiseI8x16S | SimdOp::I32x4ExtaddPairwiseI16x8S => wrap_exec(ext_exec(rd(a, sw, 2 * i), sw, true) + ext_exec(rd(a, sw, 2 * i + 1), sw, true), w),
        SimdOp::I16x8ExtaddPairwiseI8x16U | SimdOp::I32x4ExtaddPairwiseI16x8U => wrap_exec(ext_exec(rd(a, sw, 2 * i), sw, false) + ext_exec(rd(a, sw, 2 * i + 1), sw, false), w),
        SimdOp::I32x4DotI16x8S => dot_lane(a, b, i),
        SimdOp::I8x16NarrowI16x8S => sat_s_exec(sgn_exec(if i < 8 { rd(a, sw, i) } else { rd(b, sw, i - 8) }, sw), w),
        SimdOp::I8x16NarrowI16x8U => sat_u_exec(sgn_exec(if i < 8 { rd(a, sw, i) } else { rd(b, sw, i - 8) }, sw), w),
        SimdOp::I16x8NarrowI32x4S => sat_s_exec(sgn_exec(if i < 4 { rd(a, sw, i) } else { rd(b, sw, i - 4) }, sw), w),
        SimdOp::I16x8NarrowI32x4U => sat_u_exec(sgn_exec(if i < 4 { rd(a, sw, i) } else { rd(b, sw, i - 4) }, sw), w),
        SimdOp::I8x16Swizzle => swizzle_lane(a, b, i),
        SimdOp::I8x16Splat | SimdOp::I16x8Splat | SimdOp::I32x4Splat | SimdOp::I64x2Splat | SimdOp::F32x4Splat | SimdOp::F64x2Splat => splat_lane(s, w),
        _ => 0,
    }
}

/// Result lanes of a lane-wise operator applied to `a`, `b` and scalar `s`.
pub fn apply_lanes(op: SimdOp, a: u128, b: u128, s: u64) -> (r: u128)
    requires
        lanewise(op),
    ensures
        forall|i: int| 0 <= i < 16int / (out_width(op) as int) ==> #[trigger] lane(r, out_width(op), i)
            == lane_result(op, v128_bytes(a), v128_bytes(b), s, i),
{
    let av = bytes_of(a);
    let bv = bytes_of(b);
    let w = out_width_exec(op);
    let n = 16 / w;
    assert(n * w == 16) by {
        if w == 1 {
        } else if w == 2 {
        } else if w == 4 {
        } else {
        }
    }
    let mut out = bytes_of(0);
    let mut i: usize = 0;
    while i < n
        invariant
            out@.len() == 16,
            n == 16int / (w as int),
            av@ == v128_bytes(a),
            bv@ == v128_bytes(b),
            w == out_width(op),
            width_ok(w as nat),
            lanewise(op),
            n * w == 16,
            i <= n,
            forall|j: int| 0 <= j < i ==> #[trigger] out@.subrange(j * w, j * w + w) == le_seq(
                lane_result(op, av@, bv@, s, j),
                w as nat,
            ),
            forall|j: int| 0 <= j < i ==> lane_result(op, av@, bv@, s, j) < full(w as nat),
        decreases n - i,
    {
        assert(i * w + w <= 16) by (nonlinear_arith)
            requires i < n, n * w == 16, w > 0;
        let x = lane_calc(op, &av, &bv, s, i);
        let ghost before = out@;
        write_le(&mut out, i * w, x as u128, w);
        proof {
            lemma_written_read(before, (i * w) as int, le_seq(x as nat, w as nat));
            assert forall|j: int| 0 <= j < i + 1 implies #[trigger] out@.subrange(j * w, j * w + w) == le_seq(
                lane_result(op, av@, bv@, s, j),
                w as nat,
            ) by {
                if j < i {
                    assert(j * w + w <= i * w) by (nonlinear_arith)
                        requires j < i, w > 0;
                    assert(out@.subrange(j * w, j * w + w) =~= before.subrange(j * w, j * w + w));
                }
            }
        }
        i = i + 1;
    }
    let r = le_bytes(out.as_slice());
    proof {
        lemma_le_seq_value(out@);
        assert(v128_bytes(r) == out@);
        assert forall|j: int| 0 <= j < 16int / (w as int) implies #[trigger] lane(r, w as nat, j)
            == lane_result(op, v128_bytes(a), v128_bytes(b), s, j) by {
            let x = lane_result(op, av@, bv@, s, j);
            lemma_le_roundtrip(x, w as nat);
            lemma_full_pow2(w as nat);
            vstd::arithmetic::div_mod::lemma_small_mod(x, pow2((8 * w) as nat));
        }
    }
    r
}

/// Results of the operators that are neither lane-wise nor floating-point.
pub enum SimdOut {
    V(u128),
    I(u32),
}

/// What a non-float SIMD operator yields on v128 operands `a`, `b`, `c`
/// and scalar `s` (unary operators read `a`, binary `a` and `b`, bitselect
/// all three, shifts `a` and `s`, splats `s`).
pub open spec fn simd_out(op: SimdOp, a: u128, b: u128, c: u128, s: u64, out: SimdOut) -> bool {
    match op {
        SimdOp::V128Not => out == SimdOut::V(!a),
        SimdOp::V128And => out == SimdOut::V(a & b),
        SimdOp::V128Andnot => out == SimdOut::V(a & !b),
        SimdOp::V128Or => out == SimdOut::V(a | b),
        SimdOp::V128Xor => out == SimdOut::V(a ^ b),
        SimdOp::V128Bitselect => out == SimdOut::V((a & c) | (b & !c)),
        SimdOp::V128AnyTrue => out == SimdOut::I(if a != 0 { 1 } else { 0 }),
        SimdOp::I8x16AllTrue => out == SimdOut::I(if all_nonzero(a, 1, 16) { 1 } else { 0 }),
        SimdOp::I16x8AllTrue => out == SimdOut::I(if all_nonzero(a, 2, 8) { 1 } else { 0 }),
        SimdOp::I32x4AllTrue => out == SimdOut::I(if all_nonzero(a, 4, 4) { 1 } else { 0 }),
        SimdOp::I64x2AllTrue => out == SimdOut::I(if all_nonzero(a, 8, 2) { 1 } else { 0 }),
        SimdOp::I8x16Bitmask => out == SimdOut::I(bitmask(a, 1, 16) as u32),
        SimdOp::I16x8Bitmask => out == SimdOut::I(bitmask(a, 2, 8) as u32),
        SimdOp::I32x4Bitmask => out == SimdOut::I(bitmask(a, 4, 4) as u32),
        SimdOp::I64x2Bitmask => out == SimdOut::I(bitmask(a, 8, 2) as u32),
        _ => out matches SimdOut::V(r) && forall|i: int| 0 <= i < 16int / (out_width(op) as int)
            ==> #[trigger] lane(r, out_width(op), i) == lane_result(op, v128_bytes(a), v128_bytes(b), s, i),
    }
}

/// Whether every one of the `n` lanes of `w` bytes is non-zero.
fn all_true(a: u128, w: usize, n: usize) -> (r: bool)
    requires
        width_ok(w as nat),
        n * w == 16,
        n == 16int / (w as int),
    ensures
        r == all_nonzero(a, w as nat, n as nat),
{
    let av = bytes_of(a);
    let mut i: usize = 0;
    while i < n
        invariant
            n == 16int / (w as int),
            av@ == v128_bytes(a),
            width_ok(w as nat),
            n * w == 16,
            i <= n,
            forall|j: int| 0 <= j < i ==> lane(a, w as nat, j) != 0,
        decreases n - i,
    {
        if rd(&av, w, i) == 0 {
            assert(lane(a, w as nat, i as int) == 0);
            return false;
        }
        i = i + 1;
    }
    true
}

/// The sign bits of the `n` lanes of `w` bytes.
fn sign_bits(a: u128, w: usize, n: usize) -> (r: u32)
    requires
        width_ok(w as nat),
        n * w == 16,
        n == 16int / (w as int),
    ensures
        r == bitmask(a, w as nat, n as nat),
{
    let av = bytes_of(a);
    let h = full_exec(w) / 2;
    let mut r: u32 = 0;
    let mut bit: u32 = 1;
    let mut i: usize = 0;
    proof {
        lemma2_to64();
    }
    assert(n <= 16) by (nonlinear_arith)
        requires n * w == 16, w >= 1;
    while i < n
        invariant
            av@ == v128_bytes(a),
            width_ok(w as nat),
            h == full(w as nat) / 2,
            n * w == 16,
            n == 16int / (w as int),
            n <= 16,
            i <= n,
            bit == pow2(i as nat),
            r == bitmask(a, w as nat, i as nat),
            r < bit,
            bit <= 0x1_0000,
            i < n ==> bit <= 0x8000,
        decreases n - i,
    {
        let x = rd(&av, w, i);
        if x as u128 >= h {
            r = r + bit;
        }
        proof {
            vstd::arithmetic::power2::lemma_pow2_unfold((i + 1) as nat);
            if i + 1 < 16 {
                vstd::arithmetic::power2::lemma_pow2_strictly_increases((i + 1) as nat, 16);
            }
        }
        i = i + 1;
        bit = bit * 2;
        proof {
            lemma2_to64();
            if i < 15 {
                vstd::arithmetic::power2::lemma_pow2_strictly_increases(i as nat, 15);
            }
        }
    }
    r
}

/// Evaluates a SIMD operator that needs no floating-point arithmetic.
pub fn eval_simd(op: SimdOp, a: u128, b: u128, c: u128, s: u64) -> (r: SimdOut)
    requires
        !simd_float(op),
    ensures
        simd_out(op, a, b, c, s, r),
{
    match op {
        SimdOp::V128Not => SimdOut::V(!a),
        SimdOp::V128And => SimdOut::V(a & b),
        SimdOp::V128Andnot => SimdOut::V(a & !b),
        SimdOp::V128Or => SimdOut::V(a | b),
        SimdOp::V128Xor => SimdOut::V(a ^ b),
        SimdOp::V128Bitselect => SimdOut::V((a & c) | (b & !c)),
        SimdOp::V128AnyTrue => SimdOut::I(if a != 0 { 1 } else { 0 }),
        SimdOp::I8x16AllTrue => SimdOut::I(if all_true(a, 1, 16) { 1 } else { 0 }),
        SimdOp::I16x8AllTrue => SimdOut::I(if all_true(a, 2, 8) { 1 } else { 0 }),
        SimdOp::I32x4AllTrue => SimdOut::I(if all_true(a, 4, 4) { 1 } else { 0 }),
        SimdOp::I64x2AllTrue => SimdOut::I(if all_true(a, 8, 2) { 1 } else { 0 }),
        SimdOp::I8x16Bitmask => SimdOut::I(sign_bits(a, 1, 16)),
        SimdOp::I16x8Bitmask => SimdOut::I(sign_bits(a, 2, 8)),
        SimdOp::I32x4Bitmask => SimdOut::I(sign_bits(a, 4, 4)),
        SimdOp::I64x2Bitmask => SimdOut::I(sign_bits(a, 8, 2)),
        _ => {
            assert(lanewise(op));
            SimdOut::V(apply_lanes(op, a, b, s))
        },
    }
}

pub fn simd_float_exec(op: SimdOp) -> (r: bool)
    ensures
        r == simd_float(op),
{
    match op {
        SimdOp::F32x4Eq | SimdOp::F32x4Ne | SimdOp::F32x4Lt | SimdOp::F32x4Gt | SimdOp::F32x4Le
        | SimdOp::F32x4Ge | SimdOp::F64x2Eq | SimdOp::F64x2Ne | SimdOp::F64x2Lt | SimdOp::F64x2Gt
        | SimdOp::F64x2Le | SimdOp::F64x2Ge | SimdOp::F32x4DemoteF64x2Zero | SimdOp::F64x2PromoteLowF32x4
        | SimdOp::F32x4Ceil | SimdOp::F32x4Floor | SimdOp::F32x4Trunc | SimdOp::F32x4Nearest
        | SimdOp::F64x2Ceil | SimdOp::F64x2Floor | SimdOp::F64x2Trunc | SimdOp::F64x2Nearest
        | SimdOp::F32x4Sqrt | SimdOp::F32x4Add | SimdOp::F32x4Sub | SimdOp::F32x4Mul | SimdOp::F32x4Div
        | SimdOp::F32x4Min | SimdOp::F32x4Max | SimdOp::F32x4Pmin | SimdOp::F32x4Pmax
        | SimdOp::F64x2Sqrt | SimdOp::F64x2Add | SimdOp::F64x2Sub | SimdOp::F64x2Mul | SimdOp::F64x2Div
        | SimdOp::F64x2Min | SimdOp::F64x2Max | SimdOp::F64x2Pmin | SimdOp::F64x2Pmax
        | SimdOp::I32x4TruncSatF32x4S | SimdOp::I32x4TruncSatF32x4U | SimdOp::F32x4ConvertI32x4S
        | SimdOp::F32x4ConvertI32x4U | SimdOp::I32x4TruncSatF64x2SZero | SimdOp::I32x4TruncSatF64x2UZero
        | SimdOp::F64x2ConvertLowI32x4S | SimdOp::F64x2ConvertLowI32x4U => true,
        _ => false,
    }
}

/// The bits of a scalar value.
/// The bits of a scalar value, widened to 64.
pub open spec fn scalar_of(v: Value) -> u64 {
    match v {
        Value::I32(x) => x as u64,
        Value::I64(x) => x,
        Value::F32(x) => x as u64,
        Value::F64(x) => x,
        _ => 0,
    }
}

/// The v128 and scalar operands of a SIMD operator that is not
/// floating-point, read off the top of `s` by its signature (see
/// `simd_out`); `None` where they are missing or of another type.
pub open spec fn simd_operands(op: SimdOp, s: Seq<Value>) -> Option<(u128, u128, u128, u64)> {
    let (n, t1, t2, _t3, _rt) = simd_type(op);
    let k = s.len() as int;
    if t1 != ValType::V128 {
        if k >= 1 && value_type(s[k - 1]) == t1 {
            Some((0, 0, 0, scalar_of(s[k - 1])))
        } else {
            None
        }
    } else if n == 1 {
        if k >= 1 && s[k - 1] is V128 {
            Some((s[k - 1]->V128_0, 0, 0, 0))
        } else {
            None
        }
    } else if n == 2 && t2 == ValType::I32 {
        if k >= 2 && s[k - 1] is I32 && s[k - 2] is V128 {
            Some((s[k - 2]->V128_0, 0, 0, s[k - 1]->I32_0 as u64))
        } else {
            None
        }
    } else if n == 2 {
        if k >= 2 && s[k - 1] is V128 && s[k - 2] is V128 {
            Some((s[k - 2]->V128_0, s[k - 1]->V128_0, 0, 0))
        } else {
            None
        }
    } else {
        if k >= 3 && s[k - 1] is V128 && s[k - 2] is V128 && s[k - 3] is V128 {
            Some((s[k - 3]->V128_0, s[k - 2]->V128_0, s[k - 1]->V128_0, 0))
        } else {
            None
        }
    }
}

/// The stack value of a SIMD result.
pub open spec fn simd_value(o: SimdOut) -> Value {
    match o {
        SimdOut::V(v) => Value::V128(v),
        SimdOut::I(v) => Value::I32(v),
    }
}

/// What a SIMD operator without immediates does to the operand stack: a
/// floating-point one hands its operands to the embedder; any other
/// replaces its operands by its result, and fails where they are missing.
pub open spec fn simd_effect(m0: Machine, m1: Machine, op: SimdOp, r: Result<Flow, Trap>) -> bool {
    let s = m0.stack@;
    let k = simd_type(op).0 as int;
    &&& simd_float(op) ==> (r is Ok <==> k <= s.len()) && (r is Ok ==> (r matches Ok(
        Flow::Yield(Event::SimdFloat { op: o, args }),
    ) && o == op && args@ == s.skip(s.len() - k) && m1.stack@ == s.take(s.len() - k)))
    &&& !simd_float(op) ==> (r is Ok <==> simd_operands(op, s) is Some) && (r is Ok ==> {
        let (a, b, c, x) = simd_operands(op, s).unwrap();
        &&& r == Ok::<Flow, Trap>(Flow::Next)
        &&& exists|o: SimdOut| #[trigger] simd_out(op, a, b, c, x, o) && m1.stack@ == s.take(
            s.len() - k,
        ).push(simd_value(o))
    })
}

fn scalar_bits(v: Value) -> (r: u64)
    ensures
        r == scalar_of(v),
{
    match v {
        Value::I32(x) => x as u64,
        Value::I64(x) => x,
        Value::F32(x) => x as u64,
        Value::F64(x) => x,
        _ => 0,
    }
}

/// A SIMD operator without immediates: operands come from the stack, the
/// result goes back; floating-point operators are handed to the embedder.
pub fn simd_op(m: &mut Machine, op: SimdOp) -> (r: Result<Flow, Trap>)
    requires
        old(m).wf(),
        old(m).active,
    ensures
        final(m).wf(),
        final(m).active,
        final(m).queued == old(m).queued,
        final(m).depth() == old(m).depth(),
        final(m).top == old(m).top,
        final(m).ctrls == old(m).ctrls,
        simd_effect(*old(m), *final(m), op, r),
{
    let (n, t1, t2, _t3, _rt) = crate::validate::simd_sig(op);
    let ghost s = old(m).stack@;
    if simd_float_exec(op) {
        let args = m.pop_n(n as usize)?;
        return Ok(Flow::Yield(Event::SimdFloat { op, args }));
    }
    let out = if t1 != ValType::V128 {
        let x = m.pop()?;
        if x.ty() != t1 {
            return Err(fault());
        }
        eval_simd(op, 0, 0, 0, scalar_bits(x))
    } else if n == 1 {
        let a = m.pop_v128()?;
        eval_simd(op, a, 0, 0, 0)
    } else if n == 2 && t2 == ValType::I32 {
        let x = m.pop_u32()?;
        let a = m.pop_v128()?;
        eval_simd(op, a, 0, 0, x as u64)
    } else if n == 2 {
        let b = m.pop_v128()?;
        let a = m.pop_v128()?;
        eval_simd(op, a, b, 0, 0)
    } else {
        let c = m.pop_v128()?;
        let b = m.pop_v128()?;
        let a = m.pop_v128()?;
        eval_simd(op, a, b, c, 0)
    };
    let ghost (a0, b0, c0, x0) = simd_operands(op, s).unwrap();
    assert(simd_out(op, a0, b0, c0, x0, out));
    match out {
        SimdOut::V(v) => m.push(Value::V128(v)),
        SimdOut::I(v) => m.push(Value::I32(v)),
    }
    assert(m.stack@ =~= s.take(s.len() - n).push(simd_value(out)));
    Ok(Flow::Next)
}

/// The lane count and lane width in bytes of a lane operator.
pub open spec fn lane_dims(op: SimdLaneOp) -> (usize, usize) {
    match op {
        SimdLaneOp::I8x16ExtractLaneS | SimdLaneOp::I8x16ExtractLaneU | SimdLaneOp::I8x16ReplaceLane => (16, 1),
        SimdLaneOp::I16x8ExtractLaneS | SimdLaneOp::I16x8ExtractLaneU | SimdLaneOp::I16x8ReplaceLane => (8, 2),
        SimdLaneOp::I32x4ExtractLane | SimdLaneOp::I32x4ReplaceLane | SimdLaneOp::F32x4ExtractLane
        | SimdLaneOp::F32x4ReplaceLane => (4, 4),
        SimdLaneOp::I64x2ExtractLane | SimdLaneOp::I64x2ReplaceLane | SimdLaneOp::F64x2ExtractLane
        | SimdLaneOp::F64x2ReplaceLane => (2, 8),
    }
}

/// Whether a lane operator replaces a lane (rather than extracting one).
pub open spec fn lane_replaces(op: SimdLaneOp) -> bool {
    op is I8x16ReplaceLane || op is I16x8ReplaceLane || op is I32x4ReplaceLane
        || op is I64x2ReplaceLane || op is F32x4ReplaceLane || op is F64x2ReplaceLane
}

/// The scalar type a lane operator reads or yields.
pub open spec fn lane_scalar_type(op: SimdLaneOp) -> ValType {
    match op {
        SimdLaneOp::I64x2ExtractLane | SimdLaneOp::I64x2ReplaceLane => ValType::I64,
        SimdLaneOp::F32x4ExtractLane | SimdLaneOp::F32x4ReplaceLane => ValType::F32,
        SimdLaneOp::F64x2ExtractLane | SimdLaneOp::F64x2ReplaceLane => ValType::F64,
        _ => ValType::I32,
    }
}

/// The value an extraction yields from lane bits `x`: the narrow signed
/// extractions sign-extend to `i32`, the others keep the bits.
pub open spec fn extracted(op: SimdLaneOp, x: nat) -> Value {
    match op {
        SimdLaneOp::I8x16ExtractLaneS => Value::I32(wrapw(sgn(x, 1), 4) as u32),
        SimdLaneOp::I16x8ExtractLaneS => Value::I32(wrapw(sgn(x, 2), 4) as u32),
        SimdLaneOp::F32x4ExtractLane => Value::F32(x as u32),
        SimdLaneOp::I64x2ExtractLane => Value::I64(x as u64),
        SimdLaneOp::F64x2ExtractLane => Value::F64(x as u64),
        _ => Value::I32(x as u32),
    }
}

/// What a lane operator with lane immediate `l` does to the operand
/// stack: an extraction replaces the v128 on top by its lane `l`; a
/// replacement pops a scalar and sets lane `l` of the v128 under it to the
/// scalar's bits. Either fails where its operands are missing.
pub open spec fn lane_effect(m0: Machine, m1: Machine, op: SimdLaneOp, l: u8, r: Result<Flow, Trap>) -> bool {
    let s = m0.stack@;
    let k = s.len() as int;
    let (n, w) = lane_dims(op);
    if lane_replaces(op) {
        &&& r is Ok <==> (l < n && k >= 2 && value_type(s[k - 1]) == lane_scalar_type(op) && s[k - 2] is V128)
        &&& r is Ok ==> {
            &&& r == Ok::<Flow, Trap>(Flow::Next)
            &&& m1.stack@.len() == k - 1
            &&& m1.stack@.drop_last() == s.take(k - 2)
            &&& m1.stack@.last() matches Value::V128(v) && v128_bytes(v) == written(
                v128_bytes(s[k - 2]->V128_0),
                l * w,
                le_seq(scalar_of(s[k - 1]) as nat, w as nat),
            )
        }
    } else {
        &&& r is Ok <==> (l < n && k >= 1 && s[k - 1] is V128)
        &&& r is Ok ==> r == Ok::<Flow, Trap>(Flow::Next) && m1.stack@ == s.drop_last().push(
            extracted(op, lane(s[k - 1]->V128_0, w as nat, l as int)),
        )
    }
}

/// Lane count and lane width of a lane-immediate operator.
fn lane_shape(op: SimdLaneOp) -> (r: (usize, usize))
    ensures
        r == lane_dims(op),
        width_ok(r.1 as nat),
        r.0 == 16int / (r.1 as int),
{
    match op {
        SimdLaneOp::I8x16ExtractLaneS | SimdLaneOp::I8x16ExtractLaneU | SimdLaneOp::I8x16ReplaceLane => (16, 1),
        SimdLaneOp::I16x8ExtractLaneS | SimdLaneOp::I16x8ExtractLaneU | SimdLaneOp::I16x8ReplaceLane => (8, 2),
        SimdLaneOp::I32x4ExtractLane | SimdLaneOp::I32x4ReplaceLane | SimdLaneOp::F32x4ExtractLane
        | SimdLaneOp::F32x4ReplaceLane => (4, 4),
        SimdLaneOp::I64x2ExtractLane | SimdLaneOp::I64x2ReplaceLane | SimdLaneOp::F64x2ExtractLane
        | SimdLaneOp::F64x2ReplaceLane => (2, 8),
    }
}

/// `a` with lane `l` of `w` bytes set to `x` (reduced to the lane width).
pub fn replace_lane(a: u128, w: usize, l: usize, x: u64) -> (r: u128)
    requires
        width_ok(w as nat),
        l < 16int / (w as int),
    ensures
        v128_bytes(r) == written(v128_bytes(a), (l * w) as int, le_seq(x as nat, w as nat)),
        lane(r, w as nat, l as int) == (x as nat) % (full(w as nat) as nat),
{
    proof {
        lemma_lane_in_bounds(l as int, w as nat);
    }
    let mut av = bytes_of(a);
    write_le(&mut av, l * w, x as u128, w);
    let r = le_bytes(av.as_slice());
    proof {
        lemma_le_seq_value(av@);
        lemma_written_read(v128_bytes(a), (l * w) as int, le_seq(x as nat, w as nat));
        lemma_le_roundtrip(x as nat, w as nat);
        lemma_full_pow2(w as nat);
    }
    r
}

/// Lane `l` of `w` bytes of `a`.
pub fn extract_lane(a: u128, w: usize, l: usize) -> (r: u64)
    requires
        width_ok(w as nat),
        l < 16int / (w as int),
    ensures
        r == lane(a, w as nat, l as int),
        r < full(w as nat),
{
    let av = bytes_of(a);
    rd(&av, w, l)
}

/// Lane extraction and replacement.
pub fn simd_lane(m: &mut Machine, op: SimdLaneOp, lane_idx: u8) -> (r: Result<Flow, Trap>)
    requires
        old(m).wf(),
        old(m).active,
    ensures
        final(m).wf(),
        final(m).active,
        final(m).queued == old(m).queued,
        final(m).depth() == old(m).depth(),
        final(m).top == old(m).top,
        final(m).ctrls == old(m).ctrls,
        lane_effect(*old(m), *final(m), op, lane_idx, r),
{
    let ghost s = old(m).stack@;
    let (n, w) = lane_shape(op);
    let l = lane_idx as usize;
    if l >= n {
        return Err(fault());
    }
    match op {
        SimdLaneOp::I8x16ExtractLaneS | SimdLaneOp::I16x8ExtractLaneS => {
            let a = m.pop_v128()?;
            let x = extract_lane(a, w, l);
            let v = sgn_exec(x, w);
            m.push(Value::I32(wrap_exec(v, 4) as u32));
        },
        SimdLaneOp::I8x16ExtractLaneU | SimdLaneOp::I16x8ExtractLaneU | SimdLaneOp::I32x4ExtractLane => {
            let a = m.pop_v128()?;
            let x = extract_lane(a, w, l);
            m.push(Value::I32(x as u32));
        },
        SimdLaneOp::F32x4ExtractLane => {
            let a = m.pop_v128()?;
            let x = extract_lane(a, w, l);
            m.push(Value::F32(x as u32));
        },
        SimdLaneOp::I64x2ExtractLane => {
            let a = m.pop_v128()?;
            m.push(Value::I64(extract_lane(a, w, l)));
        },
        SimdLaneOp::F64x2ExtractLane => {
            let a = m.pop_v128()?;
            m.push(Value::F64(extract_lane(a, w, l)));
        },
        _ => {
            let x = m.pop()?;
            let bits = match (op, x) {
                (SimdLaneOp::I8x16ReplaceLane, Value::I32(v)) => v as u64,
                (SimdLaneOp::I16x8ReplaceLane, Value::I32(v)) => v as u64,
                (SimdLaneOp::I32x4ReplaceLane, Value::I32(v)) => v as u64,
                (SimdLaneOp::F32x4ReplaceLane, Value::F32(v)) => v as u64,
                (SimdLaneOp::I64x2ReplaceLane, Value::I64(v)) => v,
                (SimdLaneOp::F64x2ReplaceLane, Value::F64(v)) => v,
                _ => {
                    return Err(fault());
                },
            };
            assert(bits == scalar_of(x) && value_type(x) == lane_scalar_type(op));
            let a = m.pop_v128()?;
            m.push(Value::V128(replace_lane(a, w, l, bits)));
            assert(m.stack@.drop_last() =~= s.take(s.len() - 2));
        },
    }
    Ok(Flow::Next)
}

/// The bytes chosen by `i8x16.shuffle`: byte `i` is byte `lanes[i]` of the
/// 32-byte concatenation of `a` and `b`.
pub open spec fn shuffled(a: Seq<u8>, b: Seq<u8>, lanes: Seq<u8>) -> Seq<u8> {
    Seq::new(16, |i: int| if lanes[i] < 16 { a[lanes[i] as int] } else { b[lanes[i] - 16] })
}

/// `i8x16.shuffle` on two v128 values.
pub fn shuffle_bytes(a: u128, b: u128, lanes: &[u8; 16]) -> (r: Option<u128>)
    ensures
        r is Some <==> (forall|i: int| 0 <= i < 16 ==> lanes@[i] < 32),
        r matches Some(v) ==> v128_bytes(v) == shuffled(v128_bytes(a), v128_bytes(b), lanes@),
{
    let av = bytes_of(a);
    let bv = bytes_of(b);
    let mut out: Vec<u8> = Vec::new();
    let mut i: usize = 0;
    while i < 16
        invariant
            i <= 16,
            av@ == v128_bytes(a),
            bv@ == v128_bytes(b),
            out@ == shuffled(av@, bv@, lanes@).take(i as int),
            lanes@.len() == 16,
            forall|j: int| 0 <= j < i ==> lanes@[j] < 32,
        decreases 16 - i,
    {
        let j = lanes[i];
        if j < 16 {
            out.push(av[j as usize]);
        } else if j < 32 {
            out.push(bv[(j - 16) as usize]);
        } else {
            return None;
        }
        i = i + 1;
        assert(out@ =~= shuffled(av@, bv@, lanes@).take(i as int));
    }
    let r = le_bytes(out.as_slice());
    proof {
        lemma_le_seq_value(out@);
        assert(shuffled(av@, bv@, lanes@).take(16) =~= shuffled(av@, bv@, lanes@));
    }
    Some(r)
}

/// What `i8x16.shuffle` with lane immediates `lanes` does to the operand
/// stack: two v128 operands are replaced by the bytes they select, and it
/// fails where they are missing or a lane index is out of range.
pub open spec fn shuffle_effect(m0: Machine, m1: Machine, lanes: Seq<u8>, r: Result<Flow, Trap>) -> bool {
    let s = m0.stack@;
    let k = s.len() as int;
    &&& r is Ok <==> (k >= 2 && s[k - 1] is V128 && s[k - 2] is V128 && forall|i: int|
        0 <= i < 16 ==> lanes[i] < 32)
    &&& r is Ok ==> {
        &&& r == Ok::<Flow, Trap>(Flow::Next)
        &&& m1.stack@.len() == k - 1
        &&& m1.stack@.drop_last() == s.take(k - 2)
        &&& m1.stack@.last() matches Value::V128(v) && v128_bytes(v) == shuffled(
            v128_bytes(s[k - 2]->V128_0),
            v128_bytes(s[k - 1]->V128_0),
            lanes,
        )
    }
}

pub fn shuffle(m: &mut Machine, lanes: &[u8; 16]) -> (r: Result<Flow, Trap>)
    requires
        old(m).wf(),
        old(m).active,
    ensures
        final(m).wf(),
        final(m).active,
        final(m).queued == old(m).queued,
        final(m).depth() == old(m).depth(),
        final(m).top == old(m).top,
        final(m).ctrls == old(m).ctrls,
        shuffle_effect(*old(m), *final(m), lanes@, r),
{
    let b = m.pop_v128()?;
    let a = m.pop_v128()?;
    match shuffle_bytes(a, b, lanes) {
        Some(v) => {
            m.push(Value::V128(v));
            assert(m.stack@.drop_last() =~= old(m).stack@.take(old(m).stack@.len() - 2));
            Ok(Flow::Next)
        },
        None => Err(fault()),
    }
}

/// The number of bytes a v128 memory operator reads or writes.
pub open spec fn simd_mem_bytes(op: SimdMemOp) -> nat {
    match op {
        SimdMemOp::Load | SimdMemOp::Store => 16,
        SimdMemOp::Load8Splat | SimdMemOp::Load8Lane | SimdMemOp::Store8Lane => 1,
        SimdMemOp::Load16Splat | SimdMemOp::Load16Lane | SimdMemOp::Store16Lane => 2,
        SimdMemOp::Load32Splat | SimdMemOp::Load32Zero | SimdMemOp::Load32Lane | SimdMemOp::Store32Lane => 4,
        _ => 8,
    }
}

/// Whether a v128 memory operator reads or writes one lane.
pub open spec fn simd_mem_lane(op: SimdMemOp) -> bool {
    op is Load8Lane || op is Load16Lane || op is Load32Lane || op is Load64Lane || op is Store8Lane
        || op is Store16Lane || op is Store32Lane || op is Store64Lane
}

/// Whether a v128 memory operator writes memory.
pub open spec fn simd_mem_stores(op: SimdMemOp) -> bool {
    op is Store || op is Store8Lane || op is Store16Lane || op is Store32Lane || op is Store64Lane
}

/// The lane operator a widening or splatting load applies to what it read.
pub open spec fn simd_load_op(op: SimdMemOp) -> SimdOp {
    match op {
        SimdMemOp::Load8x8S => SimdOp::I16x8ExtendLowI8x16S,
        SimdMemOp::Load8x8U => SimdOp::I16x8ExtendLowI8x16U,
        SimdMemOp::Load16x4S => SimdOp::I32x4ExtendLowI16x8S,
        SimdMemOp::Load16x4U => SimdOp::I32x4ExtendLowI16x8U,
        SimdMemOp::Load32x2S => SimdOp::I64x2ExtendLowI32x4S,
        SimdMemOp::Load32x2U => SimdOp::I64x2ExtendLowI32x4U,
        SimdMemOp::Load8Splat => SimdOp::I8x16Splat,
        SimdMemOp::Load16Splat => SimdOp::I16x8Splat,
        SimdMemOp::Load32Splat => SimdOp::I32x4Splat,
        _ => SimdOp::I64x2Splat,
    }
}

/// Whether `v` is what a whole-vector load yields from the little-endian
/// number `x` it read: the number itself (zero-extended for the `zero`
/// loads), its low lanes widened, or it splatted.
pub open spec fn loaded_v128(op: SimdMemOp, x: nat, v: u128) -> bool {
    match op {
        SimdMemOp::Load8x8S | SimdMemOp::Load8x8U | SimdMemOp::Load16x4S | SimdMemOp::Load16x4U
        | SimdMemOp::Load32x2S | SimdMemOp::Load32x2U => simd_out(simd_load_op(op), x as u128, 0, 0, 0, SimdOut::V(v)),
        SimdMemOp::Load8Splat | SimdMemOp::Load16Splat | SimdMemOp::Load32Splat | SimdMemOp::Load64Splat => simd_out(
            simd_load_op(op),
            0,
            0,
            0,
            x as u64,
            SimdOut::V(v),
        ),
        _ => v == x,
    }
}

/// What a v128 memory operator does, from machine `m0` and store `st0`
/// to `m1` and `st1`: it reads or writes `simd_mem_bytes(op)` bytes at the
/// address operand plus `offset` in memory 0 of the running instance,
/// failing with an out-of-bounds trap past its end; a lane operator reads
/// or writes lane `l` of its v128 operand.
pub open spec fn simd_mem_effect(
    m0: Machine,
    m1: Machine,
    st0: Store,
    st1: Store,
    op: SimdMemOp,
    offset: u32,
    l: u8,
    r: Result<Flow, Trap>,
) -> bool {
    let s = m0.stack@;
    let k = s.len() as int;
    let i = m0.top.inst as int;
    let w = simd_mem_bytes(op);
    let data = st0.mems@[mem0(st0, i)].data@;
    if simd_mem_lane(op) || simd_mem_stores(op) {
        let operands = (simd_mem_lane(op) ==> l < 16nat / w) && k >= 2 && s[k - 1] is V128 && s[k - 2] is I32
            && mem0_ok(st0, i);
        let at = s[k - 2]->I32_0 + offset;
        let v = s[k - 1]->V128_0;
        &&& operands ==> (r is Ok <==> at + w <= data.len())
        &&& operands && r is Err ==> r->Err_0.msg@ == "out of bounds memory access"@
        &&& r is Ok ==> operands && r == Ok::<Flow, Trap>(Flow::Next)
        &&& r is Ok && simd_mem_stores(op) ==> {
            &&& m1.stack@ == s.take(k - 2)
            &&& st1.mems@.len() == st0.mems@.len()
            &&& st1.mems@[mem0(st0, i)].data@ == written(
                data,
                at,
                if simd_mem_lane(op) {
                    le_seq(lane(v, w, l as int), w)
                } else {
                    le_seq(v as nat, w)
                },
            )
        }
        &&& r is Ok && !simd_mem_stores(op) ==> {
            &&& m1.stack@.drop_last() == s.take(k - 2)
            &&& m1.stack@.last() matches Value::V128(nv) && v128_bytes(nv) == written(
                v128_bytes(v),
                l * w,
                le_seq(load_at(data, at, w as int).unwrap(), w),
            )
        }
    } else {
        let operands = k >= 1 && s[k - 1] is I32 && mem0_ok(st0, i);
        let at = s[k - 1]->I32_0 + offset;
        &&& operands ==> (r is Ok <==> load_at(data, at, w as int) is Some)
        &&& operands && r is Err ==> r->Err_0.msg@ == "out of bounds memory access"@
        &&& r is Ok ==> {
            &&& operands
            &&& r == Ok::<Flow, Trap>(Flow::Next)
            &&& m1.stack@.drop_last() == s.drop_last()
            &&& m1.stack@.last() matches Value::V128(nv) && loaded_v128(op, load_at(data, at, w as int).unwrap(), nv)
        }
    }
}

/// v128 loads and stores, whole or by lane.
pub fn simd_mem(m: &mut Machine, store: &mut Store, op: SimdMemOp, offset: u32, lane_idx: u8) -> (r: Result<Flow, Trap>)
    requires
        old(m).wf(),
        old(m).active,
    ensures
        final(m).wf(),
        final(m).active,
        final(m).queued == old(m).queued,
        final(m).depth() == old(m).depth(),
        final(m).top == old(m).top,
        final(m).ctrls == old(m).ctrls,
        final(store).funcs == old(store).funcs,
        simd_mem_effect(*old(m), *final(m), *old(store), *final(store), op, offset, lane_idx, r),
        r is Err ==> final(store).mems == old(store).mems,
{
    let ghost s = old(m).stack@;
    let ghost k = s.len() as int;
    let l = lane_idx as usize;
    match op {
        SimdMemOp::Load => {
            let v = m.mem_load(store, offset, 16)?;
            m.push(Value::V128(v));
            assert(m.stack@.drop_last() =~= s.drop_last());
        },
        SimdMemOp::Load8x8S | SimdMemOp::Load8x8U | SimdMemOp::Load16x4S | SimdMemOp::Load16x4U
        | SimdMemOp::Load32x2S | SimdMemOp::Load32x2U => {
            let raw = m.mem_load(store, offset, 8)?;
            // Widening loads are the low-half extensions of the loaded bytes.
            let ext = match op {
                SimdMemOp::Load8x8S => SimdOp::I16x8ExtendLowI8x16S,
                SimdMemOp::Load8x8U => SimdOp::I16x8ExtendLowI8x16U,
                SimdMemOp::Load16x4S => SimdOp::I32x4ExtendLowI16x8S,
                SimdMemOp::Load16x4U => SimdOp::I32x4ExtendLowI16x8U,
                SimdMemOp::Load32x2S => SimdOp::I64x2ExtendLowI32x4S,
                _ => SimdOp::I64x2ExtendLowI32x4U,
            };
            let v = apply_lanes(ext, raw, 0, 0);
            assert(simd_out(ext, raw, 0, 0, 0, SimdOut::V(v)));
            m.push(Value::V128(v));
            assert(m.stack@.drop_last() =~= s.drop_last());
        },
        SimdMemOp::Load8Splat | SimdMemOp::Load16Splat | SimdMemOp::Load32Splat | SimdMemOp::Load64Splat => {
            let (w, splat) = match op {
                SimdMemOp::Load8Splat => (1usize, SimdOp::I8x16Splat),
                SimdMemOp::Load16Splat => (2usize, SimdOp::I16x8Splat),
                SimdMemOp::Load32Splat => (4usize, SimdOp::I32x4Splat),
                _ => (8usize, SimdOp::I64x2Splat),
            };
            let raw = m.mem_load(store, offset, w)?;
            let v = apply_lanes(splat, 0, 0, raw as u64);
            assert(simd_out(splat, 0, 0, 0, raw as u64, SimdOut::V(v)));
            m.push(Value::V128(v));
            assert(m.stack@.drop_last() =~= s.drop_last());
        },
        SimdMemOp::Load32Zero => {
            let raw = m.mem_load(store, offset, 4)?;
            m.push(Value::V128(raw));
            assert(m.stack@.drop_last() =~= s.drop_last());
        },
        SimdMemOp::Load64Zero => {
            let raw = m.mem_load(store, offset, 8)?;
            m.push(Value::V128(raw));
            assert(m.stack@.drop_last() =~= s.drop_last());
        },
        SimdMemOp::Store => {
            let v = m.pop_v128()?;
            m.mem_store(store, offset, v, 16)?;
            assert(m.stack@ =~= s.take(k - 2));

        },
        SimdMemOp::Load8Lane | SimdMemOp::Load16Lane | SimdMemOp::Load32Lane | SimdMemOp::Load64Lane => {
            let w: usize = match op {
                SimdMemOp::Load8Lane => 1,
                SimdMemOp::Load16Lane => 2,
                SimdMemOp::Load32Lane => 4,
                _ => 8,
            };
            if l >= 16 / w {
                return Err(fault());
            }
            let prev = m.pop_v128()?;
            let raw = m.mem_load(store, offset, w)?;
            proof {
                let data = old(store).mems@[mem0(*old(store), old(m).top.inst as int)].data@;
                let at = s[k - 2]->I32_0 + offset;
                lemma_le_value_bound(data.subrange(at, at + w as int));
                lemma2_to64();
            }
            m.push(Value::V128(replace_lane(prev, w, l, raw as u64)));
            assert(m.stack@.drop_last() =~= s.take(k - 2));

        },
        _ => {
            let w: usize = match op {
                SimdMemOp::Store8Lane => 1,
                SimdMemOp::Store16Lane => 2,
                SimdMemOp::Store32Lane => 4,
                _ => 8,
            };
            if l >= 16 / w {
                return Err(fault());
            }
            let v = m.pop_v128()?;
            let x = extract_lane(v, w, l);
            m.mem_store(store, offset, x as u128, w)?;
            assert(m.stack@ =~= s.take(k - 2));

        },
    }
    Ok(Flow::Next)
}


/// The lane width of the integer minimum and maximum operators (`0` for
/// any other operator).
pub open spec fn min_max_width(op: SimdOp) -> nat {
    match op {
        SimdOp::I8x16MinU | SimdOp::I8x16MaxU | SimdOp::I8x16MinS | SimdOp::I8x16MaxS => 1,
        SimdOp::I16x8MinU | SimdOp::I16x8MaxU | SimdOp::I16x8MinS | SimdOp::I16x8MaxS => 2,
        SimdOp::I32x4MinU | SimdOp::I32x4MaxU | SimdOp::I32x4MinS | SimdOp::I32x4MaxS => 4,
        _ => 0,
    }
}

/// Each result lane of a lane-wise minimum or maximum is one of the two
/// operand lanes: for an unsigned maximum it is at least both, for an
/// unsigned minimum at most both, and likewise for the signed ones with the
/// lanes read as two's complement numbers.
pub proof fn lemma_min_max_lanes(op: SimdOp, a: u128, b: u128, c: u128, s: u64, out: SimdOut, i: int)
    requires
        min_max_width(op) > 0,
        simd_out(op, a, b, c, s, out),
        0 <= i < 16int / (min_max_width(op) as int),
    ensures
        out matches SimdOut::V(r) && ({
            let w = min_max_width(op);
            let x = lane(a, w, i);
            let y = lane(b, w, i);
            let z = lane(r, w, i);
            &&& (z == x || z == y)
            &&& (op == SimdOp::I8x16MaxU || op == SimdOp::I16x8MaxU || op == SimdOp::I32x4MaxU) ==> z >= x && z >= y
            &&& (op == SimdOp::I8x16MinU || op == SimdOp::I16x8MinU || op == SimdOp::I32x4MinU) ==> z <= x && z <= y
            &&& (op == SimdOp::I8x16MaxS || op == SimdOp::I16x8MaxS || op == SimdOp::I32x4MaxS) ==> sgn(z, w) >= sgn(x, w)
                && sgn(z, w) >= sgn(y, w)
            &&& (op == SimdOp::I8x16MinS || op == SimdOp::I16x8MinS || op == SimdOp::I32x4MinS) ==> sgn(z, w) <= sgn(x, w)
                && sgn(z, w) <= sgn(y, w)
        }),
{
    let w = min_max_width(op);
    assert(out_width(op) == w);
    let r = out->V_0;
    assert(lane(r, out_width(op), i) == lane_result(op, v128_bytes(a), v128_bytes(b), s, i));
}


/// The lane-wise equality of `w`-byte lanes (`w` of 1, 2 or 4).
pub open spec fn eq_op(w: nat) -> SimdOp {
    if w == 1 {
        SimdOp::I8x16Eq
    } else if w == 2 {
        SimdOp::I16x8Eq
    } else {
        SimdOp::I32x4Eq
    }
}

/// The lane-wise inequality of `w`-byte lanes (`w` of 1, 2 or 4).
pub open spec fn ne_op(w: nat) -> SimdOp {
    if w == 1 {
        SimdOp::I8x16Ne
    } else if w == 2 {
        SimdOp::I16x8Ne
    } else {
        SimdOp::I32x4Ne
    }
}

/// The lane-wise unsigned less-than of `w`-byte lanes (`w` of 1, 2 or 4).
pub open spec fn lt_u_op(w: nat) -> SimdOp {
    if w == 1 {
        SimdOp::I8x16LtU
    } else if w == 2 {
        SimdOp::I16x8LtU
    } else {
        SimdOp::I32x4LtU
    }
}

/// The lane-wise unsigned greater-than of `w`-byte lanes (`w` of 1, 2 or 4).
pub open spec fn gt_u_op(w: nat) -> SimdOp {
    if w == 1 {
        SimdOp::I8x16GtU
    } else if w == 2 {
        SimdOp::I16x8GtU
    } else {
        SimdOp::I32x4GtU
    }
}

/// The lane-wise unsigned at-most of `w`-byte lanes (`w` of 1, 2 or 4).
pub open spec fn le_u_op(w: nat) -> SimdOp {
    if w == 1 {
        SimdOp::I8x16LeU
    } else if w == 2 {
        SimdOp::I16x8LeU
    } else {
        SimdOp::I32x4LeU
    }
}

/// The lane-wise unsigned at-least of `w`-byte lanes (`w` of 1, 2 or 4).
pub open spec fn ge_u_op(w: nat) -> SimdOp {
    if w == 1 {
        SimdOp::I8x16GeU
    } else if w == 2 {
        SimdOp::I16x8GeU
    } else {
        SimdOp::I32x4GeU
    }
}

/// The lane-wise wrapping addition of `w`-byte lanes (`w` of 1, 2 or 4).
pub open spec fn add_op(w: nat) -> SimdOp {
    if w == 1 {
        SimdOp::I8x16Add
    } else if w == 2 {
        SimdOp::I16x8Add
    } else {
        SimdOp::I32x4Add
    }
}

/// The lane-wise wrapping subtraction of `w`-byte lanes (`w` of 1, 2 or 4).
pub open spec fn sub_op(w: nat) -> SimdOp {
    if w == 1 {
        SimdOp::I8x16Sub
    } else if w == 2 {
        SimdOp::I16x8Sub
    } else {
        SimdOp::I32x4Sub
    }
}

/// Lane laws of the integer comparisons and wrapping arithmetic, lane `i`
/// of `w`-byte lanes: a comparison gives all ones exactly when it holds and
/// zero otherwise; less-than and at-most are greater-than and at-least with
/// the operands swapped; equality and inequality are complements; an
/// addition or subtraction gives a lane that differs from the exact sum or
/// difference by a multiple of `2^(8w)`.
pub proof fn lemma_integer_lane_laws(w: nat, a: Seq<u8>, b: Seq<u8>, s: u64, i: int)
    requires
        w == 1 || w == 2 || w == 4,
        0 <= i < 16int / (w as int),
    ensures
        ({
            let x = lane_of(a, w, i);
            let y = lane_of(b, w, i);
            let t = full(w) - 1;
            &&& lane_result(eq_op(w), a, b, s, i) == (if x == y { t } else { 0 })
            &&& lane_result(lt_u_op(w), a, b, s, i) == (if x < y { t } else { 0 })
            &&& lane_result(le_u_op(w), a, b, s, i) == (if x <= y { t } else { 0 })
            &&& lane_result(eq_op(w), a, b, s, i) + lane_result(ne_op(w), a, b, s, i) == t
            &&& lane_result(lt_u_op(w), a, b, s, i) == lane_result(gt_u_op(w), b, a, s, i)
            &&& lane_result(le_u_op(w), a, b, s, i) == lane_result(ge_u_op(w), b, a, s, i)
            &&& lane_result(add_op(w), a, b, s, i) < full(w)
            &&& (lane_result(add_op(w), a, b, s, i) - x - y) % full(w) == 0
            &&& lane_result(sub_op(w), a, b, s, i) < full(w)
            &&& (lane_result(sub_op(w), a, b, s, i) - x + y) % full(w) == 0
        }),
{
    let x = lane_of(a, w, i);
    let y = lane_of(b, w, i);
    if w == 1 {
        assert(out_width(SimdOp::I8x16Add) == 1);
    } else if w == 2 {
        assert(out_width(SimdOp::I16x8Add) == 2);
    } else {
        assert(out_width(SimdOp::I32x4Add) == 4);
    }
    let m: int = full(w);
    let xi: int = x as int;
    let yi: int = y as int;
    assert((((xi + yi) % m) - xi - yi) % m == 0);
    assert((((xi - yi) % m) - xi + yi) % m == 0);
}


/// The lane-wise unsigned saturating addition of `w`-byte lanes (`w` of 1 or 2).
pub open spec fn add_sat_u_op(w: nat) -> SimdOp {
    if w == 1 { SimdOp::I8x16AddSatU } else { SimdOp::I16x8AddSatU }
}

/// The lane-wise unsigned saturating subtraction of `w`-byte lanes (`w` of 1 or 2).
pub open spec fn sub_sat_u_op(w: nat) -> SimdOp {
    if w == 1 { SimdOp::I8x16SubSatU } else { SimdOp::I16x8SubSatU }
}

/// The lane-wise unsigned rounding average of `w`-byte lanes (`w` of 1 or 2).
pub open spec fn avgr_u_op(w: nat) -> SimdOp {
    if w == 1 { SimdOp::I8x16AvgrU } else { SimdOp::I16x8AvgrU }
}

/// Lane laws of the unsigned saturating operators and the rounding
/// average, lane `i` of `w`-byte lanes: a saturating sum or difference is
/// the exact one when it fits in a lane and the nearest bound otherwise;
/// twice the average is the sum of the lanes, or one more when it is odd.
pub proof fn lemma_saturating_lane_laws(w: nat, a: Seq<u8>, b: Seq<u8>, s: u64, i: int)
    requires
        w == 1 || w == 2,
        a.len() == 16,
        b.len() == 16,
        0 <= i < 16int / (w as int),
    ensures
        ({
            let x = lane_of(a, w, i);
            let y = lane_of(b, w, i);
            let sa = lane_result(add_sat_u_op(w), a, b, s, i);
            let sd = lane_result(sub_sat_u_op(w), a, b, s, i);
            let av = lane_result(avgr_u_op(w), a, b, s, i);
            &&& (x + y < full(w) ==> sa == x + y)
            &&& (x + y >= full(w) ==> sa == full(w) - 1)
            &&& (x >= y ==> sd == x - y)
            &&& (x < y ==> sd == 0)
            &&& ((x + y) % 2 == 0 ==> 2 * av == x + y)
            &&& ((x + y) % 2 == 1 ==> 2 * av == x + y + 1)
        }),
{
    let x = lane_of(a, w, i);
    let y = lane_of(b, w, i);
    if w == 1 {
        assert(out_width(SimdOp::I8x16AddSatU) == 1);
        assert(out_width(SimdOp::I8x16SubSatU) == 1);
        assert(out_width(SimdOp::I8x16AvgrU) == 1);
    } else {
        assert(out_width(SimdOp::I16x8AddSatU) == 2);
        assert(out_width(SimdOp::I16x8SubSatU) == 2);
        assert(out_width(SimdOp::I16x8AvgrU) == 2);
    }
    assert(i * w + w <= 16) by (nonlinear_arith)
        requires
            w == 1 || w == 2,
            0 <= i < 16int / (w as int),
    ;
    assert(0 <= i * w) by (nonlinear_arith)
        requires
            w == 1 || w == 2,
            0 <= i,
    ;
    crate::bytes::lemma_le_value_bound(a.subrange(i * w, i * w + w));
    crate::bytes::lemma_le_value_bound(b.subrange(i * w, i * w + w));
    vstd::arithmetic::power2::lemma2_to64();
    assert(x < full(w));
    assert(y < full(w));
}

} // verus!
