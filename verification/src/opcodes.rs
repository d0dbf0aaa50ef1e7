//! Opcode tables of the binary format: each operator's encoding, and the
//! decoding functions that invert it.
use vstd::prelude::*;
use crate::module::{LoadOp, NumOp, SimdLaneOp, SimdMemOp, SimdOp, StoreOp};

verus! {

/// The encoding of a plain numeric operator: its one-byte opcode, or
/// `0xfc00 + n` for the saturating truncations under the `0xfc n` prefix.
pub open spec fn numop_code(op: NumOp) -> u32 {
    match op {
        NumOp::I32Eqz => 0x45,
        NumOp::I32Eq => 0x46,
        NumOp::I32Ne => 0x47,
        NumOp::I32LtS => 0x48,
        NumOp::I32LtU => 0x49,
        NumOp::I32GtS => 0x4a,
        NumOp::I32GtU => 0x4b,
        NumOp::I32LeS => 0x4c,
        NumOp::I32LeU => 0x4d,
        NumOp::I32GeS => 0x4e,
        NumOp::I32GeU => 0x4f,
        NumOp::I64Eqz => 0x50,
        NumOp::I64Eq => 0x51,
        NumOp::I64Ne => 0x52,
        NumOp::I64LtS => 0x53,
        NumOp::I64LtU => 0x54,
        NumOp::I64GtS => 0x55,
        NumOp::I64GtU => 0x56,
        NumOp::I64LeS => 0x57,
        NumOp::I64LeU => 0x58,
        NumOp::I64GeS => 0x59,
        NumOp::I64GeU => 0x5a,
        NumOp::F32Eq => 0x5b,
        NumOp::F32Ne => 0x5c,
        NumOp::F32Lt => 0x5d,
        NumOp::F32Gt => 0x5e,
        NumOp::F32Le => 0x5f,
        NumOp::F32Ge => 0x60,
        NumOp::F64Eq => 0x61,
        NumOp::F64Ne => 0x62,
        NumOp::F64Lt => 0x63,
        NumOp::F64Gt => 0x64,
        NumOp::F64Le => 0x65,
        NumOp::F64Ge => 0x66,
        NumOp::I32Clz => 0x67,
        NumOp::I32Ctz => 0x68,
        NumOp::I32Popcnt => 0x69,
        NumOp::I32Add => 0x6a,
        NumOp::I32Sub => 0x6b,
        NumOp::I32Mul => 0x6c,
        NumOp::I32DivS => 0x6d,
        NumOp::I32DivU => 0x6e,
        NumOp::I32RemS => 0x6f,
        NumOp::I32RemU => 0x70,
        NumOp::I32And => 0x71,
        NumOp::I32Or => 0x72,
        NumOp::I32Xor => 0x73,
        NumOp::I32Shl => 0x74,
        NumOp::I32ShrS => 0x75,
        NumOp::I32ShrU => 0x76,
        NumOp::I32Rotl => 0x77,
        NumOp::I32Rotr => 0x78,
        NumOp::I64Clz => 0x79,
        NumOp::I64Ctz => 0x7a,
        NumOp::I64Popcnt => 0x7b,
        NumOp::I64Add => 0x7c,
        NumOp::I64Sub => 0x7d,
        NumOp::I64Mul => 0x7e,
        NumOp::I64DivS => 0x7f,
        NumOp::I64DivU => 0x80,
        NumOp::I64RemS => 0x81,
        NumOp::I64RemU => 0x82,
        NumOp::I64And => 0x83,
        NumOp::I64Or => 0x84,
        NumOp::I64Xor => 0x85,
        NumOp::I64Shl => 0x86,
        NumOp::I64ShrS => 0x87,
        NumOp::I64ShrU => 0x88,
        NumOp::I64Rotl => 0x89,
        NumOp::I64Rotr => 0x8a,
        NumOp::F32Abs => 0x8b,
        NumOp::F32Neg => 0x8c,
        NumOp::F32Ceil => 0x8d,
        NumOp::F32Floor => 0x8e,
        NumOp::F32Trunc => 0x8f,
        NumOp::F32Nearest => 0x90,
        NumOp::F32Sqrt => 0x91,
        NumOp::F32Add => 0x92,
        NumOp::F32Sub => 0x93,
        NumOp::F32Mul => 0x94,
        NumOp::F32Div => 0x95,
        NumOp::F32Min => 0x96,
        NumOp::F32Max => 0x97,
        NumOp::F32Copysign => 0x98,
        NumOp::F64Abs => 0x99,
        NumOp::F64Neg => 0x9a,
        NumOp::F64Ceil => 0x9b,
        NumOp::F64Floor => 0x9c,
        NumOp::F64Trunc => 0x9d,
        NumOp::F64Nearest => 0x9e,
        NumOp::F64Sqrt => 0x9f,
        NumOp::F64Add => 0xa0,
        NumOp::F64Sub => 0xa1,
        NumOp::F64Mul => 0xa2,
        NumOp::F64Div => 0xa3,
        NumOp::F64Min => 0xa4,
        NumOp::F64Max => 0xa5,
        NumOp::F64Copysign => 0xa6,
        NumOp::I32WrapI64 => 0xa7,
        NumOp::I32TruncF32S => 0xa8,
        NumOp::I32TruncF32U => 0xa9,
        NumOp::I32TruncF64S => 0xaa,
        NumOp::I32TruncF64U => 0xab,
        NumOp::I64ExtendI32S => 0xac,
        NumOp::I64ExtendI32U => 0xad,
        NumOp::I64TruncF32S => 0xae,
        NumOp::I64TruncF32U => 0xaf,
        NumOp::I64TruncF64S => 0xb0,
        NumOp::I64TruncF64U => 0xb1,
        NumOp::F32ConvertI32S => 0xb2,
        NumOp::F32ConvertI32U => 0xb3,
        NumOp::F32ConvertI64S => 0xb4,
        NumOp::F32ConvertI64U => 0xb5,
        NumOp::F32DemoteF64 => 0xb6,
        NumOp::F64ConvertI32S => 0xb7,
        NumOp::F64ConvertI32U => 0xb8,
        NumOp::F64ConvertI64S => 0xb9,
        NumOp::F64ConvertI64U => 0xba,
        NumOp::F64PromoteF32 => 0xbb,
        NumOp::I32ReinterpretF32 => 0xbc,
        NumOp::I64ReinterpretF64 => 0xbd,
        NumOp::F32ReinterpretI32 => 0xbe,
        NumOp::F64ReinterpretI64 => 0xbf,
        NumOp::I32Extend8S => 0xc0,
        NumOp::I32Extend16S => 0xc1,
        NumOp::I64Extend8S => 0xc2,
        NumOp::I64Extend16S => 0xc3,
        NumOp::I64Extend32S => 0xc4,
        NumOp::I32TruncSatF32S => 0xfc00,
        NumOp::I32TruncSatF32U => 0xfc01,
        NumOp::I32TruncSatF64S => 0xfc02,
        NumOp::I32TruncSatF64U => 0xfc03,
        NumOp::I64TruncSatF32S => 0xfc04,
        NumOp::I64TruncSatF32U => 0xfc05,
        NumOp::I64TruncSatF64S => 0xfc06,
        NumOp::I64TruncSatF64U => 0xfc07,
    }
}

/// The sub-opcode (after the `0xfd` prefix) of a SIMD operator without immediates.
pub open spec fn simd_code(op: SimdOp) -> u32 {
    match op {
        SimdOp::I8x16Swizzle => 0x0e,
        SimdOp::I8x16Splat => 0x0f,
        SimdOp::I16x8Splat => 0x10,
        SimdOp::I32x4Splat => 0x11,
        SimdOp::I64x2Splat => 0x12,
        SimdOp::F32x4Splat => 0x13,
        SimdOp::F64x2Splat => 0x14,
        SimdOp::I8x16Eq => 0x23,
        SimdOp::I8x16Ne => 0x24,
        SimdOp::I8x16LtS => 0x25,
        SimdOp::I8x16LtU => 0x26,
        SimdOp::I8x16GtS => 0x27,
        SimdOp::I8x16GtU => 0x28,
        SimdOp::I8x16LeS => 0x29,
        SimdOp::I8x16LeU => 0x2a,
        SimdOp::I8x16GeS => 0x2b,
        SimdOp::I8x16GeU => 0x2c,
        SimdOp::I16x8Eq => 0x2d,
        SimdOp::I16x8Ne => 0x2e,
        SimdOp::I16x8LtS => 0x2f,
        SimdOp::I16x8LtU => 0x30,
        SimdOp::I16x8GtS => 0x31,
        SimdOp::I16x8GtU => 0x32,
        SimdOp::I16x8LeS => 0x33,
        SimdOp::I16x8LeU => 0x34,
        SimdOp::I16x8GeS => 0x35,
        SimdOp::I16x8GeU => 0x36,
        SimdOp::I32x4Eq => 0x37,
        SimdOp::I32x4Ne => 0x38,
        SimdOp::I32x4LtS => 0x39,
        SimdOp::I32x4LtU => 0x3a,
        SimdOp::I32x4GtS => 0x3b,
        SimdOp::I32x4GtU => 0x3c,
        SimdOp::I32x4LeS => 0x3d,
        SimdOp::I32x4LeU => 0x3e,
        SimdOp::I32x4GeS => 0x3f,
        SimdOp::I32x4GeU => 0x40,
        SimdOp::F32x4Eq => 0x41,
        SimdOp::F32x4Ne => 0x42,
        SimdOp::F32x4Lt => 0x43,
        SimdOp::F32x4Gt => 0x44,
        SimdOp::F32x4Le => 0x45,
        SimdOp::F32x4Ge => 0x46,
        SimdOp::F64x2Eq => 0x47,
        SimdOp::F64x2Ne => 0x48,
        SimdOp::F64x2Lt => 0x49,
        SimdOp::F64x2Gt => 0x4a,
        SimdOp::F64x2Le => 0x4b,
        SimdOp::F64x2Ge => 0x4c,
        SimdOp::V128Not => 0x4d,
        SimdOp::V128And => 0x4e,
        SimdOp::V128Andnot => 0x4f,
        SimdOp::V128Or => 0x50,
        SimdOp::V128Xor => 0x51,
        SimdOp::V128Bitselect => 0x52,
        SimdOp::V128AnyTrue => 0x53,
        SimdOp::F32x4DemoteF64x2Zero => 0x5e,
        SimdOp::F64x2PromoteLowF32x4 => 0x5f,
        SimdOp::I8x16Abs => 0x60,
        SimdOp::I8x16Neg => 0x61,
        SimdOp::I8x16Popcnt => 0x62,
        SimdOp::I8x16AllTrue => 0x63,
        SimdOp::I8x16Bitmask => 0x64,
        SimdOp::I8x16NarrowI16x8S => 0x65,
        SimdOp::I8x16NarrowI16x8U => 0x66,
        SimdOp::F32x4Ceil => 0x67,
        SimdOp::F32x4Floor => 0x68,
        SimdOp::F32x4Trunc => 0x69,
        SimdOp::F32x4Nearest => 0x6a,
        SimdOp::I8x16Shl => 0x6b,
        SimdOp::I8x16ShrS => 0x6c,
        SimdOp::I8x16ShrU => 0x6d,
        SimdOp::I8x16Add => 0x6e,
        SimdOp::I8x16AddSatS => 0x6f,
        SimdOp::I8x16AddSatU => 0x70,
        SimdOp::I8x16Sub => 0x71,
        SimdOp::I8x16SubSatS => 0x72,
        SimdOp::I8x16SubSatU => 0x73,
        SimdOp::F64x2Ceil => 0x74,
        SimdOp::F64x2Floor => 0x75,
        SimdOp::I8x16MinS => 0x76,
        SimdOp::I8x16MinU => 0x77,
        SimdOp::I8x16MaxS => 0x78,
        SimdOp::I8x16MaxU => 0x79,
        SimdOp::F64x2Trunc => 0x7a,
        SimdOp::I8x16AvgrU => 0x7b,
        SimdOp::I16x8ExtaddPairwiseI8x16S => 0x7c,
        SimdOp::I16x8ExtaddPairwiseI8x16U => 0x7d,
        SimdOp::I32x4ExtaddPairwiseI16x8S => 0x7e,
        SimdOp::I32x4ExtaddPairwiseI16x8U => 0x7f,
        SimdOp::I16x8Abs => 0x80,
        SimdOp::I16x8Neg => 0x81,
        SimdOp::I16x8Q15mulrSatS => 0x82,
        SimdOp::I16x8AllTrue => 0x83,
        SimdOp::I16x8Bitmask => 0x84,
        SimdOp::I16x8NarrowI32x4S => 0x85,
        SimdOp::I16x8NarrowI32x4U => 0x86,
        SimdOp::I16x8ExtendLowI8x16S => 0x87,
        SimdOp::I16x8ExtendHighI8x16S => 0x88,
        SimdOp::I16x8ExtendLowI8x16U => 0x89,
        SimdOp::I16x8ExtendHighI8x16U => 0x8a,
        SimdOp::I16x8Shl => 0x8b,
        SimdOp::I16x8ShrS => 0x8c,
        SimdOp::I16x8ShrU => 0x8d,
        SimdOp::I16x8Add => 0x8e,
        SimdOp::I16x8AddSatS => 0x8f,
        SimdOp::I16x8AddSatU => 0x90,
        SimdOp::I16x8Sub => 0x91,
        SimdOp::I16x8SubSatS => 0x92,
        SimdOp::I16x8SubSatU => 0x93,
        SimdOp::F64x2Nearest => 0x94,
        SimdOp::I16x8Mul => 0x95,
        SimdOp::I16x8MinS => 0x96,
        SimdOp::I16x8MinU => 0x97,
        SimdOp::I16x8MaxS => 0x98,
        SimdOp::I16x8MaxU => 0x99,
        SimdOp::I16x8AvgrU => 0x9b,
        SimdOp::I16x8ExtmulLowI8x16S => 0x9c,
        SimdOp::I16x8ExtmulHighI8x16S => 0x9d,
        SimdOp::I16x8ExtmulLowI8x16U => 0x9e,
        SimdOp::I16x8ExtmulHighI8x16U => 0x9f,
        SimdOp::I32x4Abs => 0xa0,
        SimdOp::I32x4Neg => 0xa1,
        SimdOp::I32x4AllTrue => 0xa3,
        SimdOp::I32x4Bitmask => 0xa4,
        SimdOp::I32x4ExtendLowI16x8S => 0xa7,
        SimdOp::I32x4ExtendHighI16x8S => 0xa8,
        SimdOp::I32x4ExtendLowI16x8U => 0xa9,
        SimdOp::I32x4ExtendHighI16x8U => 0xaa,
        SimdOp::I32x4Shl => 0xab,
        SimdOp::I32x4ShrS => 0xac,
        SimdOp::I32x4ShrU => 0xad,
        SimdOp::I32x4Add => 0xae,
        SimdOp::I32x4Sub => 0xb1,
        SimdOp::I32x4Mul => 0xb5,
        SimdOp::I32x4MinS => 0xb6,
        SimdOp::I32x4MinU => 0xb7,
        SimdOp::I32x4MaxS => 0xb8,
        SimdOp::I32x4MaxU => 0xb9,
        SimdOp::I32x4DotI16x8S => 0xba,
        SimdOp::I32x4ExtmulLowI16x8S => 0xbc,
        SimdOp::I32x4ExtmulHighI16x8S => 0xbd,
        SimdOp::I32x4ExtmulLowI16x8U => 0xbe,
        SimdOp::I32x4ExtmulHighI16x8U => 0xbf,
        SimdOp::I64x2Abs => 0xc0,
        SimdOp::I64x2Neg => 0xc1,
        SimdOp::I64x2AllTrue => 0xc3,
        SimdOp::I64x2Bitmask => 0xc4,
        SimdOp::I64x2ExtendLowI32x4S => 0xc7,
        SimdOp::I64x2ExtendHighI32x4S => 0xc8,
        SimdOp::I64x2ExtendLowI32x4U => 0xc9,
        SimdOp::I64x2ExtendHighI32x4U => 0xca,
        SimdOp::I64x2Shl => 0xcb,
        SimdOp::I64x2ShrS => 0xcc,
        SimdOp::I64x2ShrU => 0xcd,
        SimdOp::I64x2Add => 0xce,
        SimdOp::I64x2Sub => 0xd1,
        SimdOp::I64x2Mul => 0xd5,
        SimdOp::I64x2Eq => 0xd6,
        SimdOp::I64x2Ne => 0xd7,
        SimdOp::I64x2LtS => 0xd8,
        SimdOp::I64x2GtS => 0xd9,
        SimdOp::I64x2LeS => 0xda,
        SimdOp::I64x2GeS => 0xdb,
        SimdOp::I64x2ExtmulLowI32x4S => 0xdc,
        SimdOp::I64x2ExtmulHighI32x4S => 0xdd,
        SimdOp::I64x2ExtmulLowI32x4U => 0xde,
        SimdOp::I64x2ExtmulHighI32x4U => 0xdf,
        SimdOp::F32x4Abs => 0xe0,
        SimdOp::F32x4Neg => 0xe1,
        SimdOp::F32x4Sqrt => 0xe3,
        SimdOp::F32x4Add => 0xe4,
        SimdOp::F32x4Sub => 0xe5,
        SimdOp::F32x4Mul => 0xe6,
        SimdOp::F32x4Div => 0xe7,
        SimdOp::F32x4Min => 0xe8,
        SimdOp::F32x4Max => 0xe9,
        SimdOp::F32x4Pmin => 0xea,
        SimdOp::F32x4Pmax => 0xeb,
        SimdOp::F64x2Abs => 0xec,
        SimdOp::F64x2Neg => 0xed,
        SimdOp::F64x2Sqrt => 0xef,
        SimdOp::F64x2Add => 0xf0,
        SimdOp::F64x2Sub => 0xf1,
        SimdOp::F64x2Mul => 0xf2,
        SimdOp::F64x2Div => 0xf3,
        SimdOp::F64x2Min => 0xf4,
        SimdOp::F64x2Max => 0xf5,
        SimdOp::F64x2Pmin => 0xf6,
        SimdOp::F64x2Pmax => 0xf7,
        SimdOp::I32x4TruncSatF32x4S => 0xf8,
        SimdOp::I32x4TruncSatF32x4U => 0xf9,
        SimdOp::F32x4ConvertI32x4S => 0xfa,
        SimdOp::F32x4ConvertI32x4U => 0xfb,
        SimdOp::I32x4TruncSatF64x2SZero => 0xfc,
        SimdOp::I32x4TruncSatF64x2UZero => 0xfd,
        SimdOp::F64x2ConvertLowI32x4S => 0xfe,
        SimdOp::F64x2ConvertLowI32x4U => 0xff,
    }
}

/// The sub-opcode of a SIMD lane operator.
pub open spec fn lane_code(op: SimdLaneOp) -> u32 {
    match op {
        SimdLaneOp::I8x16ExtractLaneS => 0x15,
        SimdLaneOp::I8x16ExtractLaneU => 0x16,
        SimdLaneOp::I8x16ReplaceLane => 0x17,
        SimdLaneOp::I16x8ExtractLaneS => 0x18,
        SimdLaneOp::I16x8ExtractLaneU => 0x19,
        SimdLaneOp::I16x8ReplaceLane => 0x1a,
        SimdLaneOp::I32x4ExtractLane => 0x1b,
        SimdLaneOp::I32x4ReplaceLane => 0x1c,
        SimdLaneOp::I64x2ExtractLane => 0x1d,
        SimdLaneOp::I64x2ReplaceLane => 0x1e,
        SimdLaneOp::F32x4ExtractLane => 0x1f,
        SimdLaneOp::F32x4ReplaceLane => 0x20,
        SimdLaneOp::F64x2ExtractLane => 0x21,
        SimdLaneOp::F64x2ReplaceLane => 0x22,
    }
}

/// The sub-opcode of a SIMD memory operator.
pub open spec fn simd_mem_code(op: SimdMemOp) -> u32 {
    match op {
        SimdMemOp::Load => 0x00,
        SimdMemOp::Load8x8S => 0x01,
        SimdMemOp::Load8x8U => 0x02,
        SimdMemOp::Load16x4S => 0x03,
        SimdMemOp::Load16x4U => 0x04,
        SimdMemOp::Load32x2S => 0x05,
        SimdMemOp::Load32x2U => 0x06,
        SimdMemOp::Load8Splat => 0x07,
        SimdMemOp::Load16Splat => 0x08,
        SimdMemOp::Load32Splat => 0x09,
        SimdMemOp::Load64Splat => 0x0a,
        SimdMemOp::Store => 0x0b,
        SimdMemOp::Load32Zero => 0x5c,
        SimdMemOp::Load64Zero => 0x5d,
        SimdMemOp::Load8Lane => 0x54,
        SimdMemOp::Load16Lane => 0x55,
        SimdMemOp::Load32Lane => 0x56,
        SimdMemOp::Load64Lane => 0x57,
        SimdMemOp::Store8Lane => 0x58,
        SimdMemOp::Store16Lane => 0x59,
        SimdMemOp::Store32Lane => 0x5a,
        SimdMemOp::Store64Lane => 0x5b,
    }
}

/// The lane loads and stores are exactly the memory operators whose code
/// lies in `0x54..=0x5b`.
pub proof fn lemma_mem_lane_codes(op: SimdMemOp)
    ensures
        simd_mem_has_lane(op) <==> 0x54 <= simd_mem_code(op) <= 0x5b,
{
}

/// Whether a SIMD memory operator carries a lane immediate.
pub open spec fn simd_mem_has_lane(op: SimdMemOp) -> bool {
    match op {
        SimdMemOp::Load8Lane => true,
        SimdMemOp::Load16Lane => true,
        SimdMemOp::Load32Lane => true,
        SimdMemOp::Load64Lane => true,
        SimdMemOp::Store8Lane => true,
        SimdMemOp::Store16Lane => true,
        SimdMemOp::Store32Lane => true,
        SimdMemOp::Store64Lane => true,
        _ => false,
    }
}

/// Decodes a plain one-byte numeric opcode (`0x45..=0xc4`).
pub fn plain_numop(op: u8) -> (r: Option<NumOp>)
    ensures
        r is Some <==> 0x45 <= op <= 0xc4,
        r matches Some(o) ==> numop_code(o) == op as u32,
{
    match op {
        0x45 => Some(NumOp::I32Eqz),
        0x46 => Some(NumOp::I32Eq),
        0x47 => Some(NumOp::I32Ne),
        0x48 => Some(NumOp::I32LtS),
        0x49 => Some(NumOp::I32LtU),
        0x4a => Some(NumOp::I32GtS),
        0x4b => Some(NumOp::I32GtU),
        0x4c => Some(NumOp::I32LeS),
        0x4d => Some(NumOp::I32LeU),
        0x4e => Some(NumOp::I32GeS),
        0x4f => Some(NumOp::I32GeU),
        0x50 => Some(NumOp::I64Eqz),
        0x51 => Some(NumOp::I64Eq),
        0x52 => Some(NumOp::I64Ne),
        0x53 => Some(NumOp::I64LtS),
        0x54 => Some(NumOp::I64LtU),
        0x55 => Some(NumOp::I64GtS),
        0x56 => Some(NumOp::I64GtU),
        0x57 => Some(NumOp::I64LeS),
        0x58 => Some(NumOp::I64LeU),
        0x59 => Some(NumOp::I64GeS),
        0x5a => Some(NumOp::I64GeU),
        0x5b => Some(NumOp::F32Eq),
        0x5c => Some(NumOp::F32Ne),
        0x5d => Some(NumOp::F32Lt),
        0x5e => Some(NumOp::F32Gt),
        0x5f => Some(NumOp::F32Le),
        0x60 => Some(NumOp::F32Ge),
        0x61 => Some(NumOp::F64Eq),
        0x62 => Some(NumOp::F64Ne),
        0x63 => Some(NumOp::F64Lt),
        0x64 => Some(NumOp::F64Gt),
        0x65 => Some(NumOp::F64Le),
        0x66 => Some(NumOp::F64Ge),
        0x67 => Some(NumOp::I32Clz),
        0x68 => Some(NumOp::I32Ctz),
        0x69 => Some(NumOp::I32Popcnt),
        0x6a => Some(NumOp::I32Add),
        0x6b => Some(NumOp::I32Sub),
        0x6c => Some(NumOp::I32Mul),
        0x6d => Some(NumOp::I32DivS),
        0x6e => Some(NumOp::I32DivU),
        0x6f => Some(NumOp::I32RemS),
        0x70 => Some(NumOp::I32RemU),
        0x71 => Some(NumOp::I32And),
        0x72 => Some(NumOp::I32Or),
        0x73 => Some(NumOp::I32Xor),
        0x74 => Some(NumOp::I32Shl),
        0x75 => Some(NumOp::I32ShrS),
        0x76 => Some(NumOp::I32ShrU),
        0x77 => Some(NumOp::I32Rotl),
        0x78 => Some(NumOp::I32Rotr),
        0x79 => Some(NumOp::I64Clz),
        0x7a => Some(NumOp::I64Ctz),
        0x7b => Some(NumOp::I64Popcnt),
        0x7c => Some(NumOp::I64Add),
        0x7d => Some(NumOp::I64Sub),
        0x7e => Some(NumOp::I64Mul),
        0x7f => Some(NumOp::I64DivS),
        0x80 => Some(NumOp::I64DivU),
        0x81 => Some(NumOp::I64RemS),
        0x82 => Some(NumOp::I64RemU),
        0x83 => Some(NumOp::I64And),
        0x84 => Some(NumOp::I64Or),
        0x85 => Some(NumOp::I64Xor),
        0x86 => Some(NumOp::I64Shl),
        0x87 => Some(NumOp::I64ShrS),
        0x88 => Some(NumOp::I64ShrU),
        0x89 => Some(NumOp::I64Rotl),
        0x8a => Some(NumOp::I64Rotr),
        0x8b => Some(NumOp::F32Abs),
        0x8c => Some(NumOp::F32Neg),
        0x8d => Some(NumOp::F32Ceil),
        0x8e => Some(NumOp::F32Floor),
        0x8f => Some(NumOp::F32Trunc),
        0x90 => Some(NumOp::F32Nearest),
        0x91 => Some(NumOp::F32Sqrt),
        0x92 => Some(NumOp::F32Add),
        0x93 => Some(NumOp::F32Sub),
        0x94 => Some(NumOp::F32Mul),
        0x95 => Some(NumOp::F32Div),
        0x96 => Some(NumOp::F32Min),
        0x97 => Some(NumOp::F32Max),
        0x98 => Some(NumOp::F32Copysign),
        0x99 => Some(NumOp::F64Abs),
        0x9a => Some(NumOp::F64Neg),
        0x9b => Some(NumOp::F64Ceil),
        0x9c => Some(NumOp::F64Floor),
        0x9d => Some(NumOp::F64Trunc),
        0x9e => Some(NumOp::F64Nearest),
        0x9f => Some(NumOp::F64Sqrt),
        0xa0 => Some(NumOp::F64Add),
        0xa1 => Some(NumOp::F64Sub),
        0xa2 => Some(NumOp::F64Mul),
        0xa3 => Some(NumOp::F64Div),
        0xa4 => Some(NumOp::F64Min),
        0xa5 => Some(NumOp::F64Max),
        0xa6 => Some(NumOp::F64Copysign),
        0xa7 => Some(NumOp::I32WrapI64),
        0xa8 => Some(NumOp::I32TruncF32S),
        0xa9 => Some(NumOp::I32TruncF32U),
        0xaa => Some(NumOp::I32TruncF64S),
        0xab => Some(NumOp::I32TruncF64U),
        0xac => Some(NumOp::I64ExtendI32S),
        0xad => Some(NumOp::I64ExtendI32U),
        0xae => Some(NumOp::I64TruncF32S),
        0xaf => Some(NumOp::I64TruncF32U),
        0xb0 => Some(NumOp::I64TruncF64S),
        0xb1 => Some(NumOp::I64TruncF64U),
        0xb2 => Some(NumOp::F32ConvertI32S),
        0xb3 => Some(NumOp::F32ConvertI32U),
        0xb4 => Some(NumOp::F32ConvertI64S),
        0xb5 => Some(NumOp::F32ConvertI64U),
        0xb6 => Some(NumOp::F32DemoteF64),
        0xb7 => Some(NumOp::F64ConvertI32S),
        0xb8 => Some(NumOp::F64ConvertI32U),
        0xb9 => Some(NumOp::F64ConvertI64S),
        0xba => Some(NumOp::F64ConvertI64U),
        0xbb => Some(NumOp::F64PromoteF32),
        0xbc => Some(NumOp::I32ReinterpretF32),
        0xbd => Some(NumOp::I64ReinterpretF64),
        0xbe => Some(NumOp::F32ReinterpretI32),
        0xbf => Some(NumOp::F64ReinterpretI64),
        0xc0 => Some(NumOp::I32Extend8S),
        0xc1 => Some(NumOp::I32Extend16S),
        0xc2 => Some(NumOp::I64Extend8S),
        0xc3 => Some(NumOp::I64Extend16S),
        0xc4 => Some(NumOp::I64Extend32S),
        _ => None,
    }
}

/// Decodes a saturating truncation under the `0xfc` prefix (sub-opcodes 0 to 7).
pub fn sat_numop(sub: u32) -> (r: Option<NumOp>)
    ensures
        r is Some <==> sub <= 7,
        r matches Some(o) ==> numop_code(o) == 0xfc00 + sub,
{
    match sub {
        0 => Some(NumOp::I32TruncSatF32S),
        1 => Some(NumOp::I32TruncSatF32U),
        2 => Some(NumOp::I32TruncSatF64S),
        3 => Some(NumOp::I32TruncSatF64U),
        4 => Some(NumOp::I64TruncSatF32S),
        5 => Some(NumOp::I64TruncSatF32U),
        6 => Some(NumOp::I64TruncSatF64S),
        7 => Some(NumOp::I64TruncSatF64U),
        _ => None,
    }
}

/// Decodes a SIMD sub-opcode of an operator without immediates.
pub fn simd_plain(sub: u32) -> (r: Option<SimdOp>)
    ensures
        r matches Some(o) ==> simd_code(o) == sub,
        r is None ==> forall|o: SimdOp| #[trigger] simd_code(o) != sub,
{
    match sub {
        0x0e => Some(SimdOp::I8x16Swizzle),
        0x0f => Some(SimdOp::I8x16Splat),
        0x10 => Some(SimdOp::I16x8Splat),
        0x11 => Some(SimdOp::I32x4Splat),
        0x12 => Some(SimdOp::I64x2Splat),
        0x13 => Some(SimdOp::F32x4Splat),
        0x14 => Some(SimdOp::F64x2Splat),
        0x23 => Some(SimdOp::I8x16Eq),
        0x24 => Some(SimdOp::I8x16Ne),
        0x25 => Some(SimdOp::I8x16LtS),
        0x26 => Some(SimdOp::I8x16LtU),
        0x27 => Some(SimdOp::I8x16GtS),
        0x28 => Some(SimdOp::I8x16GtU),
        0x29 => Some(SimdOp::I8x16LeS),
        0x2a => Some(SimdOp::I8x16LeU),
        0x2b => Some(SimdOp::I8x16GeS),
        0x2c => Some(SimdOp::I8x16GeU),
        0x2d => Some(SimdOp::I16x8Eq),
        0x2e => Some(SimdOp::I16x8Ne),
        0x2f => Some(SimdOp::I16x8LtS),
        0x30 => Some(SimdOp::I16x8LtU),
        0x31 => Some(SimdOp::I16x8GtS),
        0x32 => Some(SimdOp::I16x8GtU),
        0x33 => Some(SimdOp::I16x8LeS),
        0x34 => Some(SimdOp::I16x8LeU),
        0x35 => Some(SimdOp::I16x8GeS),
        0x36 => Some(SimdOp::I16x8GeU),
        0x37 => Some(SimdOp::I32x4Eq),
        0x38 => Some(SimdOp::I32x4Ne),
        0x39 => Some(SimdOp::I32x4LtS),
        0x3a => Some(SimdOp::I32x4LtU),
        0x3b => Some(SimdOp::I32x4GtS),
        0x3c => Some(SimdOp::I32x4GtU),
        0x3d => Some(SimdOp::I32x4LeS),
        0x3e => Some(SimdOp::I32x4LeU),
        0x3f => Some(SimdOp::I32x4GeS),
        0x40 => Some(SimdOp::I32x4GeU),
        0x41 => Some(SimdOp::F32x4Eq),
        0x42 => Some(SimdOp::F32x4Ne),
        0x43 => Some(SimdOp::F32x4Lt),
        0x44 => Some(SimdOp::F32x4Gt),
        0x45 => Some(SimdOp::F32x4Le),
        0x46 => Some(SimdOp::F32x4Ge),
        0x47 => Some(SimdOp::F64x2Eq),
        0x48 => Some(SimdOp::F64x2Ne),
        0x49 => Some(SimdOp::F64x2Lt),
        0x4a => Some(SimdOp::F64x2Gt),
        0x4b => Some(SimdOp::F64x2Le),
        0x4c => Some(SimdOp::F64x2Ge),
        0x4d => Some(SimdOp::V128Not),
        0x4e => Some(SimdOp::V128And),
        0x4f => Some(SimdOp::V128Andnot),
        0x50 => Some(SimdOp::V128Or),
        0x51 => Some(SimdOp::V128Xor),
        0x52 => Some(SimdOp::V128Bitselect),
        0x53 => Some(SimdOp::V128AnyTrue),
        0x5e => Some(SimdOp::F32x4DemoteF64x2Zero),
        0x5f => Some(SimdOp::F64x2PromoteLowF32x4),
        0x60 => Some(SimdOp::I8x16Abs),
        0x61 => Some(SimdOp::I8x16Neg),
        0x62 => Some(SimdOp::I8x16Popcnt),
        0x63 => Some(SimdOp::I8x16AllTrue),
        0x64 => Some(SimdOp::I8x16Bitmask),
        0x65 => Some(SimdOp::I8x16NarrowI16x8S),
        0x66 => Some(SimdOp::I8x16NarrowI16x8U),
        0x67 => Some(SimdOp::F32x4Ceil),
        0x68 => Some(SimdOp::F32x4Floor),
        0x69 => Some(SimdOp::F32x4Trunc),
        0x6a => Some(SimdOp::F32x4Nearest),
        0x6b => Some(SimdOp::I8x16Shl),
        0x6c => Some(SimdOp::I8x16ShrS),
        0x6d => Some(SimdOp::I8x16ShrU),
        0x6e => Some(SimdOp::I8x16Add),
        0x6f => Some(SimdOp::I8x16AddSatS),
        0x70 => Some(SimdOp::I8x16AddSatU),
        0x71 => Some(SimdOp::I8x16Sub),
        0x72 => Some(SimdOp::I8x16SubSatS),
        0x73 => Some(SimdOp::I8x16SubSatU),
        0x74 => Some(SimdOp::F64x2Ceil),
        0x75 => Some(SimdOp::F64x2Floor),
        0x76 => Some(SimdOp::I8x16MinS),
        0x77 => Some(SimdOp::I8x16MinU),
        0x78 => Some(SimdOp::I8x16MaxS),
        0x79 => Some(SimdOp::I8x16MaxU),
        0x7a => Some(SimdOp::F64x2Trunc),
        0x7b => Some(SimdOp::I8x16AvgrU),
        0x7c => Some(SimdOp::I16x8ExtaddPairwiseI8x16S),
        0x7d => Some(SimdOp::I16x8ExtaddPairwiseI8x16U),
        0x7e => Some(SimdOp::I32x4ExtaddPairwiseI16x8S),
        0x7f => Some(SimdOp::I32x4ExtaddPairwiseI16x8U),
        0x80 => Some(SimdOp::I16x8Abs),
        0x81 => Some(SimdOp::I16x8Neg),
        0x82 => Some(SimdOp::I16x8Q15mulrSatS),
        0x83 => Some(SimdOp::I16x8AllTrue),
        0x84 => Some(SimdOp::I16x8Bitmask),
        0x85 => Some(SimdOp::I16x8NarrowI32x4S),
        0x86 => Some(SimdOp::I16x8NarrowI32x4U),
        0x87 => Some(SimdOp::I16x8ExtendLowI8x16S),
        0x88 => Some(SimdOp::I16x8ExtendHighI8x16S),
        0x89 => Some(SimdOp::I16x8ExtendLowI8x16U),
        0x8a => Some(SimdOp::I16x8ExtendHighI8x16U),
        0x8b => Some(SimdOp::I16x8Shl),
        0x8c => Some(SimdOp::I16x8ShrS),
        0x8d => Some(SimdOp::I16x8ShrU),
        0x8e => Some(SimdOp::I16x8Add),
        0x8f => Some(SimdOp::I16x8AddSatS),
        0x90 => Some(SimdOp::I16x8AddSatU),
        0x91 => Some(SimdOp::I16x8Sub),
        0x92 => Some(SimdOp::I16x8SubSatS),
        0x93 => Some(SimdOp::I16x8SubSatU),
        0x94 => Some(SimdOp::F64x2Nearest),
        0x95 => Some(SimdOp::I16x8Mul),
        0x96 => Some(SimdOp::I16x8MinS),
        0x97 => Some(SimdOp::I16x8MinU),
        0x98 => Some(SimdOp::I16x8MaxS),
        0x99 => Some(SimdOp::I16x8MaxU),
        0x9b => Some(SimdOp::I16x8AvgrU),
        0x9c => Some(SimdOp::I16x8ExtmulLowI8x16S),
        0x9d => Some(SimdOp::I16x8ExtmulHighI8x16S),
        0x9e => Some(SimdOp::I16x8ExtmulLowI8x16U),
        0x9f => Some(SimdOp::I16x8ExtmulHighI8x16U),
        0xa0 => Some(SimdOp::I32x4Abs),
        0xa1 => Some(SimdOp::I32x4Neg),
        0xa3 => Some(SimdOp::I32x4AllTrue),
        0xa4 => Some(SimdOp::I32x4Bitmask),
        0xa7 => Some(SimdOp::I32x4ExtendLowI16x8S),
        0xa8 => Some(SimdOp::I32x4ExtendHighI16x8S),
        0xa9 => Some(SimdOp::I32x4ExtendLowI16x8U),
        0xaa => Some(SimdOp::I32x4ExtendHighI16x8U),
        0xab => Some(SimdOp::I32x4Shl),
        0xac => Some(SimdOp::I32x4ShrS),
        0xad => Some(SimdOp::I32x4ShrU),
        0xae => Some(SimdOp::I32x4Add),
        0xb1 => Some(SimdOp::I32x4Sub),
        0xb5 => Some(SimdOp::I32x4Mul),
        0xb6 => Some(SimdOp::I32x4MinS),
        0xb7 => Some(SimdOp::I32x4MinU),
        0xb8 => Some(SimdOp::I32x4MaxS),
        0xb9 => Some(SimdOp::I32x4MaxU),
        0xba => Some(SimdOp::I32x4DotI16x8S),
        0xbc => Some(SimdOp::I32x4ExtmulLowI16x8S),
        0xbd => Some(SimdOp::I32x4ExtmulHighI16x8S),
        0xbe => Some(SimdOp::I32x4ExtmulLowI16x8U),
        0xbf => Some(SimdOp::I32x4ExtmulHighI16x8U),
        0xc0 => Some(SimdOp::I64x2Abs),
        0xc1 => Some(SimdOp::I64x2Neg),
        0xc3 => Some(SimdOp::I64x2AllTrue),
        0xc4 => Some(SimdOp::I64x2Bitmask),
        0xc7 => Some(SimdOp::I64x2ExtendLowI32x4S),
        0xc8 => Some(SimdOp::I64x2ExtendHighI32x4S),
        0xc9 => Some(SimdOp::I64x2ExtendLowI32x4U),
        0xca => Some(SimdOp::I64x2ExtendHighI32x4U),
        0xcb => Some(SimdOp::I64x2Shl),
        0xcc => Some(SimdOp::I64x2ShrS),
        0xcd => Some(SimdOp::I64x2ShrU),
        0xce => Some(SimdOp::I64x2Add),
        0xd1 => Some(SimdOp::I64x2Sub),
        0xd5 => Some(SimdOp::I64x2Mul),
        0xd6 => Some(SimdOp::I64x2Eq),
        0xd7 => Some(SimdOp::I64x2Ne),
        0xd8 => Some(SimdOp::I64x2LtS),
        0xd9 => Some(SimdOp::I64x2GtS),
        0xda => Some(SimdOp::I64x2LeS),
        0xdb => Some(SimdOp::I64x2GeS),
        0xdc => Some(SimdOp::I64x2ExtmulLowI32x4S),
        0xdd => Some(SimdOp::I64x2ExtmulHighI32x4S),
        0xde => Some(SimdOp::I64x2ExtmulLowI32x4U),
        0xdf => Some(SimdOp::I64x2ExtmulHighI32x4U),
        0xe0 => Some(SimdOp::F32x4Abs),
        0xe1 => Some(SimdOp::F32x4Neg),
        0xe3 => Some(SimdOp::F32x4Sqrt),
        0xe4 => Some(SimdOp::F32x4Add),
        0xe5 => Some(SimdOp::F32x4Sub),
        0xe6 => Some(SimdOp::F32x4Mul),
        0xe7 => Some(SimdOp::F32x4Div),
        0xe8 => Some(SimdOp::F32x4Min),
        0xe9 => Some(SimdOp::F32x4Max),
        0xea => Some(SimdOp::F32x4Pmin),
        0xeb => Some(SimdOp::F32x4Pmax),
        0xec => Some(SimdOp::F64x2Abs),
        0xed => Some(SimdOp::F64x2Neg),
        0xef => Some(SimdOp::F64x2Sqrt),
        0xf0 => Some(SimdOp::F64x2Add),
        0xf1 => Some(SimdOp::F64x2Sub),
        0xf2 => Some(SimdOp::F64x2Mul),
        0xf3 => Some(SimdOp::F64x2Div),
        0xf4 => Some(SimdOp::F64x2Min),
        0xf5 => Some(SimdOp::F64x2Max),
        0xf6 => Some(SimdOp::F64x2Pmin),
        0xf7 => Some(SimdOp::F64x2Pmax),
        0xf8 => Some(SimdOp::I32x4TruncSatF32x4S),
        0xf9 => Some(SimdOp::I32x4TruncSatF32x4U),
        0xfa => Some(SimdOp::F32x4ConvertI32x4S),
        0xfb => Some(SimdOp::F32x4ConvertI32x4U),
        0xfc => Some(SimdOp::I32x4TruncSatF64x2SZero),
        0xfd => Some(SimdOp::I32x4TruncSatF64x2UZero),
        0xfe => Some(SimdOp::F64x2ConvertLowI32x4S),
        0xff => Some(SimdOp::F64x2ConvertLowI32x4U),
        _ => None,
    }
}

/// Decodes a SIMD sub-opcode of a lane operator.
pub fn simd_lane_op(sub: u32) -> (r: Option<SimdLaneOp>)
    ensures
        r matches Some(o) ==> lane_code(o) == sub,
        r is Some <==> 0x15 <= sub <= 0x22,
{
    match sub {
        0x15 => Some(SimdLaneOp::I8x16ExtractLaneS),
        0x16 => Some(SimdLaneOp::I8x16ExtractLaneU),
        0x17 => Some(SimdLaneOp::I8x16ReplaceLane),
        0x18 => Some(SimdLaneOp::I16x8ExtractLaneS),
        0x19 => Some(SimdLaneOp::I16x8ExtractLaneU),
        0x1a => Some(SimdLaneOp::I16x8ReplaceLane),
        0x1b => Some(SimdLaneOp::I32x4ExtractLane),
        0x1c => Some(SimdLaneOp::I32x4ReplaceLane),
        0x1d => Some(SimdLaneOp::I64x2ExtractLane),
        0x1e => Some(SimdLaneOp::I64x2ReplaceLane),
        0x1f => Some(SimdLaneOp::F32x4ExtractLane),
        0x20 => Some(SimdLaneOp::F32x4ReplaceLane),
        0x21 => Some(SimdLaneOp::F64x2ExtractLane),
        0x22 => Some(SimdLaneOp::F64x2ReplaceLane),
        _ => None,
    }
}

/// Decodes a SIMD sub-opcode of a memory operator.
pub fn simd_mem_op(sub: u32) -> (r: Option<SimdMemOp>)
    ensures
        r matches Some(o) ==> simd_mem_code(o) == sub,
        r is Some <==> (sub <= 0x0b || 0x54 <= sub <= 0x5d),
{
    match sub {
        0x00 => Some(SimdMemOp::Load),
        0x01 => Some(SimdMemOp::Load8x8S),
        0x02 => Some(SimdMemOp::Load8x8U),
        0x03 => Some(SimdMemOp::Load16x4S),
        0x04 => Some(SimdMemOp::Load16x4U),
        0x05 => Some(SimdMemOp::Load32x2S),
        0x06 => Some(SimdMemOp::Load32x2U),
        0x07 => Some(SimdMemOp::Load8Splat),
        0x08 => Some(SimdMemOp::Load16Splat),
        0x09 => Some(SimdMemOp::Load32Splat),
        0x0a => Some(SimdMemOp::Load64Splat),
        0x0b => Some(SimdMemOp::Store),
        0x54 => Some(SimdMemOp::Load8Lane),
        0x55 => Some(SimdMemOp::Load16Lane),
        0x56 => Some(SimdMemOp::Load32Lane),
        0x57 => Some(SimdMemOp::Load64Lane),
        0x58 => Some(SimdMemOp::Store8Lane),
        0x59 => Some(SimdMemOp::Store16Lane),
        0x5a => Some(SimdMemOp::Store32Lane),
        0x5b => Some(SimdMemOp::Store64Lane),
        0x5c => Some(SimdMemOp::Load32Zero),
        0x5d => Some(SimdMemOp::Load64Zero),
        _ => None,
    }
}

/// Whether a SIMD memory operator carries a lane immediate.
pub fn mem_op_has_lane(op: SimdMemOp) -> (r: bool)
    ensures
        r == simd_mem_has_lane(op),
{
    match op {
        SimdMemOp::Load8Lane => true,
        SimdMemOp::Load16Lane => true,
        SimdMemOp::Load32Lane => true,
        SimdMemOp::Load64Lane => true,
        SimdMemOp::Store8Lane => true,
        SimdMemOp::Store16Lane => true,
        SimdMemOp::Store32Lane => true,
        SimdMemOp::Store64Lane => true,
        _ => false,
    }
}

/// The opcode of a scalar load.
pub open spec fn load_code(op: LoadOp) -> u8 {
    match op {
        LoadOp::I32 => 0x28,
        LoadOp::I64 => 0x29,
        LoadOp::F32 => 0x2a,
        LoadOp::F64 => 0x2b,
        LoadOp::I32L8S => 0x2c,
        LoadOp::I32L8U => 0x2d,
        LoadOp::I32L16S => 0x2e,
        LoadOp::I32L16U => 0x2f,
        LoadOp::I64L8S => 0x30,
        LoadOp::I64L8U => 0x31,
        LoadOp::I64L16S => 0x32,
        LoadOp::I64L16U => 0x33,
        LoadOp::I64L32S => 0x34,
        LoadOp::I64L32U => 0x35,
    }
}

/// The opcode of a scalar store.
pub open spec fn store_code(op: StoreOp) -> u8 {
    match op {
        StoreOp::I32 => 0x36,
        StoreOp::I64 => 0x37,
        StoreOp::F32 => 0x38,
        StoreOp::F64 => 0x39,
        StoreOp::I32S8 => 0x3a,
        StoreOp::I32S16 => 0x3b,
        StoreOp::I64S8 => 0x3c,
        StoreOp::I64S16 => 0x3d,
        StoreOp::I64S32 => 0x3e,
    }
}

/// Decodes a scalar load opcode (`0x28..=0x35`).
pub fn load_op(op: u8) -> (r: Option<LoadOp>)
    ensures
        r is Some <==> 0x28 <= op <= 0x35,
        r matches Some(o) ==> load_code(o) == op,
{
    match op {
        0x28 => Some(LoadOp::I32),
        0x29 => Some(LoadOp::I64),
        0x2a => Some(LoadOp::F32),
        0x2b => Some(LoadOp::F64),
        0x2c => Some(LoadOp::I32L8S),
        0x2d => Some(LoadOp::I32L8U),
        0x2e => Some(LoadOp::I32L16S),
        0x2f => Some(LoadOp::I32L16U),
        0x30 => Some(LoadOp::I64L8S),
        0x31 => Some(LoadOp::I64L8U),
        0x32 => Some(LoadOp::I64L16S),
        0x33 => Some(LoadOp::I64L16U),
        0x34 => Some(LoadOp::I64L32S),
        0x35 => Some(LoadOp::I64L32U),
        _ => None,
    }
}

/// Decodes a scalar store opcode (`0x36..=0x3e`).
pub fn store_op(op: u8) -> (r: Option<StoreOp>)
    ensures
        r is Some <==> 0x36 <= op <= 0x3e,
        r matches Some(o) ==> store_code(o) == op,
{
    match op {
        0x36 => Some(StoreOp::I32),
        0x37 => Some(StoreOp::I64),
        0x38 => Some(StoreOp::F32),
        0x39 => Some(StoreOp::F64),
        0x3a => Some(StoreOp::I32S8),
        0x3b => Some(StoreOp::I32S16),
        0x3c => Some(StoreOp::I64S8),
        0x3d => Some(StoreOp::I64S16),
        0x3e => Some(StoreOp::I64S32),
        _ => None,
    }
}

} // verus!
