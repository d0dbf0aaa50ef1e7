use wasm_core::error::Trap;
use wasm_core::module::{NumOp, SimdOp};
use wasm_core::numeric::{round_nan32, round_nan64, rounding_nan};
use wasm_core::runner::{
    invoke_err, match_f32, match_f64, parse_u32, parse_u64, trap_matches, InstOutcome,
};
use wasm_core::runner::{FileResult, Verdict};
use wasm_core::simd::{eval_simd, shuffle_bytes, SimdOut};
use wasm_core::{InvokeError, Value};

fn v(bytes: [u8; 16]) -> u128 {
    u128::from_le_bytes(bytes)
}

fn lanes(op: SimdOp, a: u128, b: u128) -> u128 {
    match eval_simd(op, a, b, 0, 0) {
        SimdOut::V(r) => r,
        SimdOut::I(_) => panic!("expected a vector"),
    }
}

#[test]
fn byte_lanes_wrap_and_saturate() {
    let a = v([250, 1, 0x80, 0x7f, 0, 0, 0, 0, 0, 0, 0, 0, 0, 0, 0, 200]);
    let b = v([10, 2, 0xff, 1, 0, 0, 0, 0, 0, 0, 0, 0, 0, 0, 0, 100]);
    let sum = lanes(SimdOp::I8x16Add, a, b).to_le_bytes();
    assert_eq!(sum[0], 4);
    assert_eq!(sum[1], 3);
    assert_eq!(sum[15], 44);
    let sat_u = lanes(SimdOp::I8x16AddSatU, a, b).to_le_bytes();
    assert_eq!(sat_u[0], 255);
    assert_eq!(sat_u[15], 255);
    let sat_s = lanes(SimdOp::I8x16AddSatS, a, b).to_le_bytes();
    assert_eq!(sat_s[2], 0x80); // -128 + -1 saturates at -128
    assert_eq!(sat_s[3], 0x7f); // 127 + 1 saturates at 127
    let avg = lanes(SimdOp::I8x16AvgrU, a, b).to_le_bytes();
    assert_eq!(avg[0], 130);
    assert_eq!(avg[1], 2);
}

#[test]
fn comparisons_give_all_ones() {
    let a = v([1, 0xff, 3, 0, 0, 0, 0, 0, 0, 0, 0, 0, 0, 0, 0, 0]);
    let b = v([1, 1, 4, 0, 0, 0, 0, 0, 0, 0, 0, 0, 0, 0, 0, 0]);
    let eq = lanes(SimdOp::I8x16Eq, a, b).to_le_bytes();
    assert_eq!(&eq[..3], &[0xff, 0, 0]);
    let lt_s = lanes(SimdOp::I8x16LtS, a, b).to_le_bytes();
    assert_eq!(&lt_s[..3], &[0, 0xff, 0xff]);
    let lt_u = lanes(SimdOp::I8x16LtU, a, b).to_le_bytes();
    assert_eq!(&lt_u[..3], &[0, 0, 0xff]);
}

#[test]
fn wider_lanes() {
    let a: u128 = (7u128 << 64) | 0xffff_ffff_ffff_fffe;
    let b: u128 = (3u128 << 64) | 3;
    let mul = lanes(SimdOp::I64x2Mul, a, b);
    assert_eq!(mul as u64, 0xffff_ffff_ffff_fffa);
    assert_eq!((mul >> 64) as u64, 21);
    let narrow = lanes(SimdOp::I8x16NarrowI16x8S, 0x7fff_0100_ff80, 0).to_le_bytes();
    assert_eq!(&narrow[..3], &[0x80, 0x7f, 0x7f]);
    let ext = lanes(SimdOp::I16x8ExtendLowI8x16S, 0x80_01, 0);
    assert_eq!(ext & 0xffff_ffff, 0xff80_0001);
    let dot = lanes(SimdOp::I32x4DotI16x8S, 0x0003_0002, 0x0005_0004);
    assert_eq!(dot as u32, 23);
    let q15 = lanes(SimdOp::I16x8Q15mulrSatS, 0x8000, 0x8000);
    assert_eq!(q15 as u16, 0x7fff);
}

#[test]
fn shifts_take_the_amount_modulo_the_lane_width() {
    match eval_simd(SimdOp::I32x4Shl, 1, 0, 0, 33) {
        SimdOut::V(r) => assert_eq!(r, 2),
        _ => panic!(),
    }
    match eval_simd(SimdOp::I16x8ShrS, 0x8000, 0, 0, 15) {
        SimdOut::V(r) => assert_eq!(r, 0xffff),
        _ => panic!(),
    }
    match eval_simd(SimdOp::I8x16Splat, 0, 0, 0, 0x1ab) {
        SimdOut::V(r) => assert_eq!(r, u128::from_le_bytes([0xab; 16])),
        _ => panic!(),
    }
}

#[test]
fn reductions() {
    let a = v([0x80, 1, 0x80, 0, 0, 0, 0, 0, 0, 0, 0, 0, 0, 0, 0, 0xff]);
    match eval_simd(SimdOp::I8x16Bitmask, a, 0, 0, 0) {
        SimdOut::I(m) => assert_eq!(m, 0b1000_0000_0000_0101),
        _ => panic!(),
    }
    match eval_simd(SimdOp::I8x16AllTrue, a, 0, 0, 0) {
        SimdOut::I(m) => assert_eq!(m, 0),
        _ => panic!(),
    }
    match eval_simd(SimdOp::I8x16AllTrue, u128::MAX, 0, 0, 0) {
        SimdOut::I(m) => assert_eq!(m, 1),
        _ => panic!(),
    }
    match eval_simd(SimdOp::V128Bitselect, 0xf0, 0x0f, 0xcc, 0) {
        SimdOut::V(r) => assert_eq!(r, 0xc3),
        _ => panic!(),
    }
}

#[test]
fn shuffle_picks_from_both_operands() {
    let a = v([0, 1, 2, 3, 4, 5, 6, 7, 8, 9, 10, 11, 12, 13, 14, 15]);
    let b = v([16, 17, 18, 19, 20, 21, 22, 23, 24, 25, 26, 27, 28, 29, 30, 31]);
    let sel = [31, 0, 16, 15, 1, 1, 1, 1, 1, 1, 1, 1, 1, 1, 1, 1];
    let r = shuffle_bytes(a, b, &sel).unwrap().to_le_bytes();
    assert_eq!(&r[..4], &[31, 0, 16, 15]);
    let bad = [32u8; 16];
    assert!(shuffle_bytes(a, b, &bad).is_none());
}

#[test]
fn trap_messages_match_by_prefix() {
    assert!(trap_matches("uninitialized element 7", "uninitialized element"));
    assert!(trap_matches("uninitialized element", "uninitialized element 7"));
    assert!(trap_matches("unreachable", "unreachable"));
    assert!(!trap_matches("unreachable", "integer overflow"));
    assert!(trap_matches("", "anything"));
}

#[test]
fn decimal_parsing_follows_str_parse() {
    assert_eq!(parse_u32("4294967295"), Ok(u32::MAX));
    assert_eq!(parse_u32("+7"), Ok(7));
    assert_eq!(parse_u64("18446744073709551615"), Ok(u64::MAX));
    assert_eq!(
        parse_u32("4294967296"),
        Err("bad u32 \"4294967296\": number too large to fit in target type".to_string())
    );
    assert_eq!(
        parse_u32(""),
        Err("bad u32 \"\": cannot parse integer from empty string".to_string())
    );
    assert_eq!(parse_u32("-1"), Err("bad u32 \"-1\": invalid digit found in string".to_string()));
    assert_eq!(parse_u32("+"), Err("bad u32 \"+\": invalid digit found in string".to_string()));
    assert_eq!(parse_u64("12a"), Err("bad u64 \"12a\": invalid digit found in string".to_string()));
    for s in ["0", "123", "+45", "4294967295", "4294967296", "", "x", "9999999999999"] {
        assert_eq!(parse_u32(s).ok(), s.parse::<u32>().ok(), "{s}");
    }
}

#[test]
fn nan_patterns() {
    assert_eq!(match_f32(0x7fc0_0000, "nan:canonical"), Ok(true));
    assert_eq!(match_f32(0xffc0_0000, "nan:canonical"), Ok(true));
    assert_eq!(match_f32(0x7fc0_0001, "nan:canonical"), Ok(false));
    assert_eq!(match_f32(0x7fc0_0001, "nan:arithmetic"), Ok(true));
    assert_eq!(match_f32(0x7fa0_0000, "nan:arithmetic"), Ok(false));
    assert_eq!(match_f32(1065353216, "1065353216"), Ok(true));
    assert!(match_f32(1, "one").is_err());
    assert_eq!(match_f64(0x7ff8_0000_0000_0000, "nan:canonical"), Ok(true));
    assert_eq!(match_f64(0x7ff8_0000_0000_0001, "nan:arithmetic"), Ok(true));
    assert_eq!(match_f64(0x7ff4_0000_0000_0000, "nan:arithmetic"), Ok(false));
}

#[test]
fn outcome_and_error_texts() {
    assert_eq!(InstOutcome::Malformed("x".into()).describe(), "malformed: x");
    assert_eq!(InstOutcome::Uninstantiable("y".into()).describe(), "uninstantiable: y");
    assert_eq!(invoke_err(&InvokeError::Trap(Trap::new("unreachable"))), "trap: unreachable");
    assert_eq!(invoke_err(&InvokeError::NoSuchExport("f".into())), "no such export: f");
}

#[test]
fn every_command_gets_one_verdict() {
    let mut r = FileResult::new("f.json".to_string());
    r.record(1, "module".into(), Verdict::Pass);
    r.record(2, "assert_trap".into(), Verdict::Fail("no trap".into()));
    r.record(3, "assert_malformed".into(), Verdict::Unsupported("text".into()));
    r.record(4, "assert_return".into(), Verdict::Pass);
    assert_eq!((r.total, r.pass, r.fail, r.unsupported), (4, 2, 1, 1));
    assert_eq!(r.rows.len(), 4);
    assert_eq!(r.rows[1].verdict, "FAIL");
    assert_eq!(r.rows[1].reason, "no trap");
    assert_eq!(r.rows[2].verdict, "UNSUPPORTED");
    assert_eq!(r.rows[3].line, 4);
}

#[test]
fn rounding_quiets_signaling_nans() {
    let snan32 = f32::from_bits(0x7fa0_0000);
    for op in [NumOp::F32Ceil, NumOp::F32Floor, NumOp::F32Trunc, NumOp::F32Nearest] {
        let r = match rounding_nan(op, Value::F32(snan32.to_bits())) {
            Some(Value::F32(b)) => f32::from_bits(b),
            _ => panic!("expected a quiet NaN"),
        };
        assert!(r.is_nan() && r.to_bits() & 0x0040_0000 != 0, "{:#x}", r.to_bits());
    }
    let snan64 = f64::from_bits(0x7ff4_0000_0000_0000);
    for op in [NumOp::F64Ceil, NumOp::F64Floor, NumOp::F64Trunc, NumOp::F64Nearest] {
        let r = match rounding_nan(op, Value::F64(snan64.to_bits())) {
            Some(Value::F64(b)) => f64::from_bits(b),
            _ => panic!("expected a quiet NaN"),
        };
        assert!(r.is_nan() && r.to_bits() & 0x0008_0000_0000_0000 != 0, "{:#x}", r.to_bits());
    }
}

#[test]
fn rounding_leaves_numbers_to_float_arithmetic() {
    assert_eq!(rounding_nan(NumOp::F32Ceil, Value::F32(1.5f32.to_bits())), None);
    assert_eq!(rounding_nan(NumOp::F32Add, Value::F32(0x7fa0_0000)), None);
    assert_eq!(rounding_nan(NumOp::F64Floor, Value::F32(0x7fa0_0000)), None);
    assert_eq!(round_nan32(0x7fc0_0001), Some(0x7fc0_0001));
    assert_eq!(round_nan64(0xfff4_0000_0000_0000), Some(0xfffc_0000_0000_0000));
    assert_eq!(round_nan32(0x7f80_0000), None);
}
