use wasm_core::exec::Event;
use wasm_core::module::NumOp;
use wasm_core::numeric::{eval_int, needs_float, IntTrap};
use wasm_core::runner::{build_instance, spectest_module, InstOutcome};
use wasm_core::store::{limits_match, mem_bytes, ExternVal, Store};
use wasm_core::{InvokeError, Limits, Machine, Value};

fn header() -> Vec<u8> {
    b"\0asm\x01\0\0\0".to_vec()
}

/// Runs an invocation to its end; host functions return nothing and the
/// few float operators the tests use are computed here.
fn finish(store: &mut Store, mut m: Machine) -> Result<Vec<Value>, String> {
    loop {
        match m.run(store, 10_000) {
            Event::Done(v) => return Ok(v),
            Event::Trapped(t) => return Err(t.msg),
            Event::Paused => {}
            Event::Host { .. } => m.resume(Vec::new()),
            Event::Float { op, args } => match (op, args.as_slice()) {
                (NumOp::F32Add, [Value::F32(a), Value::F32(b)]) => {
                    let r = f32::from_bits(*a) + f32::from_bits(*b);
                    m.resume(vec![Value::F32(r.to_bits())]);
                }
                _ => return Err("unexpected float operator".into()),
            },
            Event::SimdFloat { .. } => return Err("unexpected simd float operator".into()),
        }
    }
}

fn instance(store: &mut Store, bytes: &[u8]) -> usize {
    match build_instance(store, bytes, &Vec::new()) {
        Ok(i) => i.id,
        Err(o) => panic!("{}", o.describe()),
    }
}

fn call(store: &mut Store, inst: usize, name: &str, args: &[Value]) -> Result<Vec<Value>, String> {
    let m = store.invoke_export(inst, name, args).map_err(|e| e.message())?;
    finish(store, m)
}

fn add_module() -> Vec<u8> {
    let mut b = header();
    b.extend_from_slice(&[0x01, 0x07, 0x01, 0x60, 0x02, 0x7f, 0x7f, 0x01, 0x7f]);
    b.extend_from_slice(&[0x03, 0x02, 0x01, 0x00]);
    b.extend_from_slice(&[0x07, 0x07, 0x01, 0x03, b'a', b'd', b'd', 0x00, 0x00]);
    b.extend_from_slice(&[0x0a, 0x09, 0x01, 0x07, 0x00, 0x20, 0x00, 0x20, 0x01, 0x6a, 0x0b]);
    b
}

#[test]
fn add_wraps_around() {
    let mut store = Store::new();
    let inst = instance(&mut store, &add_module());
    assert_eq!(call(&mut store, inst, "add", &[Value::I32(2), Value::I32(3)]), Ok(vec![Value::I32(5)]));
    assert_eq!(
        call(&mut store, inst, "add", &[Value::I32(u32::MAX), Value::I32(2)]),
        Ok(vec![Value::I32(1)])
    );
}

#[test]
fn invoke_checks_exports_and_arguments() {
    let mut store = Store::new();
    let inst = instance(&mut store, &add_module());
    match store.invoke_export(inst, "sub", &[]) {
        Err(InvokeError::NoSuchExport(n)) => assert_eq!(n, "sub"),
        _ => panic!("expected a missing export"),
    }
    match store.invoke_export(inst, "add", &[Value::I32(1)]) {
        Err(InvokeError::ArgMismatch(m)) => assert_eq!(m, "expected 2 args, got 1"),
        _ => panic!("expected an arity mismatch"),
    }
    match store.invoke_export(inst, "add", &[Value::I32(1), Value::I64(1)]) {
        Err(InvokeError::ArgMismatch(m)) => assert_eq!(m, "arg type I64 != param type I32"),
        _ => panic!("expected a type mismatch"),
    }
}

/// (memory 1) (func (export "rt") (param i32 i32) (result i32)
///   local.get 0 local.get 1 i32.store local.get 0 i32.load)
fn store_load_module() -> Vec<u8> {
    let mut b = header();
    b.extend_from_slice(&[0x01, 0x07, 0x01, 0x60, 0x02, 0x7f, 0x7f, 0x01, 0x7f]);
    b.extend_from_slice(&[0x03, 0x02, 0x01, 0x00]);
    b.extend_from_slice(&[0x05, 0x03, 0x01, 0x00, 0x01]);
    b.extend_from_slice(&[0x07, 0x06, 0x01, 0x02, b'r', b't', 0x00, 0x00]);
    b.extend_from_slice(&[
        0x0a, 0x10, 0x01, 0x0e, 0x00, 0x20, 0x00, 0x20, 0x01, 0x36, 0x02, 0x00, 0x20, 0x00, 0x28,
        0x02, 0x00, 0x0b,
    ]);
    b
}

#[test]
fn load_reads_back_store() {
    let mut store = Store::new();
    let inst = instance(&mut store, &store_load_module());
    assert_eq!(
        call(&mut store, inst, "rt", &[Value::I32(100), Value::I32(0xdead_beef)]),
        Ok(vec![Value::I32(0xdead_beef)])
    );
    // The last four bytes of the page are addressable, one past them is not.
    assert_eq!(
        call(&mut store, inst, "rt", &[Value::I32(65532), Value::I32(7)]),
        Ok(vec![Value::I32(7)])
    );
    assert_eq!(
        call(&mut store, inst, "rt", &[Value::I32(65533), Value::I32(7)]),
        Err("out of bounds memory access".to_string())
    );
}

/// (func (export "f") call 0)
#[test]
fn unbounded_recursion_exhausts_the_call_stack() {
    let mut b = header();
    b.extend_from_slice(&[0x01, 0x04, 0x01, 0x60, 0x00, 0x00]);
    b.extend_from_slice(&[0x03, 0x02, 0x01, 0x00]);
    b.extend_from_slice(&[0x07, 0x05, 0x01, 0x01, b'f', 0x00, 0x00]);
    b.extend_from_slice(&[0x0a, 0x06, 0x01, 0x04, 0x00, 0x10, 0x00, 0x0b]);
    let mut store = Store::new();
    let inst = instance(&mut store, &b);
    assert_eq!(call(&mut store, inst, "f", &[]), Err("call stack exhausted".to_string()));
}

/// (func (export "u") unreachable)
#[test]
fn unreachable_traps() {
    let mut b = header();
    b.extend_from_slice(&[0x01, 0x04, 0x01, 0x60, 0x00, 0x00]);
    b.extend_from_slice(&[0x03, 0x02, 0x01, 0x00]);
    b.extend_from_slice(&[0x07, 0x05, 0x01, 0x01, b'u', 0x00, 0x00]);
    b.extend_from_slice(&[0x0a, 0x05, 0x01, 0x03, 0x00, 0x00, 0x0b]);
    let mut store = Store::new();
    let inst = instance(&mut store, &b);
    assert_eq!(call(&mut store, inst, "u", &[]), Err("unreachable".to_string()));
}

/// (import "spectest" "print_i32" (func (param i32)))
/// (func (export "p") i32.const 5 call 0)
#[test]
fn host_calls_are_handed_to_the_embedder() {
    let mut b = header();
    b.extend_from_slice(&[0x01, 0x08, 0x02, 0x60, 0x01, 0x7f, 0x00, 0x60, 0x00, 0x00]);
    b.extend_from_slice(&[0x02, 0x16, 0x01, 0x08]);
    b.extend_from_slice(b"spectest");
    b.push(0x09);
    b.extend_from_slice(b"print_i32");
    b.extend_from_slice(&[0x00, 0x00]);
    b.extend_from_slice(&[0x03, 0x02, 0x01, 0x01]);
    b.extend_from_slice(&[0x07, 0x05, 0x01, 0x01, b'p', 0x00, 0x01]);
    b.extend_from_slice(&[0x0a, 0x08, 0x01, 0x06, 0x00, 0x41, 0x05, 0x10, 0x00, 0x0b]);
    let mut store = Store::new();
    let spectest = store.add_host_module(spectest_module()).unwrap();
    let registry = vec![("spectest".to_string(), spectest)];
    let inst = build_instance(&mut store, &b, &registry).ok().unwrap().id;
    let mut m = store.invoke_export(inst, "p", &[]).ok().unwrap();
    match m.run(&mut store, 100) {
        Event::Host { id, args } => {
            assert_eq!(id, 1);
            assert_eq!(args, vec![Value::I32(5)]);
        }
        _ => panic!("expected a host call"),
    }
    m.resume(Vec::new());
    match m.run(&mut store, 100) {
        Event::Done(v) => assert!(v.is_empty()),
        _ => panic!("expected the end of the invocation"),
    }
}

#[test]
fn unknown_import_is_unlinkable() {
    let mut b = header();
    b.extend_from_slice(&[0x01, 0x08, 0x02, 0x60, 0x01, 0x7f, 0x00, 0x60, 0x00, 0x00]);
    b.extend_from_slice(&[0x02, 0x16, 0x01, 0x08]);
    b.extend_from_slice(b"spectest");
    b.push(0x09);
    b.extend_from_slice(b"print_i32");
    b.extend_from_slice(&[0x00, 0x00]);
    let mut store = Store::new();
    match build_instance(&mut store, &b, &Vec::new()) {
        Err(InstOutcome::Unlinkable(m)) => assert_eq!(m, "unknown import spectest.print_i32"),
        _ => panic!("expected a link error"),
    }
}

/// (func (export "fadd") (param f32 f32) (result f32) local.get 0 local.get 1 f32.add)
#[test]
fn float_arithmetic_is_handed_to_the_embedder() {
    let mut b = header();
    b.extend_from_slice(&[0x01, 0x07, 0x01, 0x60, 0x02, 0x7d, 0x7d, 0x01, 0x7d]);
    b.extend_from_slice(&[0x03, 0x02, 0x01, 0x00]);
    b.extend_from_slice(&[0x07, 0x08, 0x01, 0x04, b'f', b'a', b'd', b'd', 0x00, 0x00]);
    b.extend_from_slice(&[0x0a, 0x09, 0x01, 0x07, 0x00, 0x20, 0x00, 0x20, 0x01, 0x92, 0x0b]);
    let mut store = Store::new();
    let inst = instance(&mut store, &b);
    let one = 1.5f32.to_bits();
    let two = 2.25f32.to_bits();
    assert_eq!(
        call(&mut store, inst, "fadd", &[Value::F32(one), Value::F32(two)]),
        Ok(vec![Value::F32(3.75f32.to_bits())])
    );
}

#[test]
fn spectest_globals() {
    let mut store = Store::new();
    let spectest = store.add_host_module(spectest_module()).unwrap();
    assert_eq!(store.get_global_export(spectest, "global_i32").ok(), Some(Value::I32(666)));
    assert_eq!(
        store.get_global_export(spectest, "global_f32").ok(),
        Some(Value::F32(666.6f32.to_bits()))
    );
    assert_eq!(
        store.get_global_export(spectest, "global_f64").ok(),
        Some(Value::F64(666.6f64.to_bits()))
    );
    assert_eq!(store.export_val(spectest, "memory"), Some(ExternVal::Mem(0)));
    assert_eq!(store.exports(spectest).len(), 13);
    match store.get_global_export(spectest, "print") {
        Err(InvokeError::KindMismatch(m)) => assert_eq!(m, "export print is not a global"),
        _ => panic!("expected a kind mismatch"),
    }
}

#[test]
fn host_global_of_wrong_type_is_refused() {
    let mut store = Store::new();
    let mut host = spectest_module();
    host.globals[0].2 = Value::I64(1);
    assert_eq!(
        store.add_host_module(host).err(),
        Some("host global global_i32: value type I64 != declared I32".to_string())
    );
}

#[test]
fn integer_operators() {
    assert!(!needs_float(NumOp::I32Add));
    assert!(needs_float(NumOp::F64Sqrt));
    assert!(!needs_float(NumOp::F32Neg));
    let i = |x: u32| Value::I32(x);
    let l = |x: u64| Value::I64(x);
    assert_eq!(eval_int(NumOp::I32Sub, i(1), i(2)), Ok(i(u32::MAX)));
    assert_eq!(eval_int(NumOp::I32Mul, i(0x1_0000), i(0x1_0000)), Ok(i(0)));
    assert_eq!(eval_int(NumOp::I32DivU, i(7), i(0)), Err(IntTrap::DivideByZero));
    assert_eq!(eval_int(NumOp::I32DivS, i(0x8000_0000), i(u32::MAX)), Err(IntTrap::Overflow));
    assert_eq!(eval_int(NumOp::I32DivS, i((-7i32) as u32), i(2)), Ok(i((-3i32) as u32)));
    assert_eq!(eval_int(NumOp::I32RemS, i((-7i32) as u32), i(2)), Ok(i((-1i32) as u32)));
    assert_eq!(eval_int(NumOp::I32RemS, i(0x8000_0000), i(u32::MAX)), Ok(i(0)));
    assert_eq!(eval_int(NumOp::I64DivS, l(0x8000_0000_0000_0000), l(u64::MAX)), Err(IntTrap::Overflow));
    assert_eq!(eval_int(NumOp::I64RemU, l(10), l(3)), Ok(l(1)));
    assert_eq!(eval_int(NumOp::I32Shl, i(1), i(33)), Ok(i(2)));
    assert_eq!(eval_int(NumOp::I32ShrS, i(0x8000_0000), i(4)), Ok(i(0xf800_0000)));
    assert_eq!(eval_int(NumOp::I32ShrU, i(0x8000_0000), i(4)), Ok(i(0x0800_0000)));
    assert_eq!(eval_int(NumOp::I32Rotl, i(0x8000_0001), i(1)), Ok(i(3)));
    assert_eq!(eval_int(NumOp::I32Rotr, i(3), i(1)), Ok(i(0x8000_0001)));
    assert_eq!(eval_int(NumOp::I64Rotl, l(1), l(64)), Ok(l(1)));
    assert_eq!(eval_int(NumOp::I32Clz, i(1), i(0)), Ok(i(31)));
    assert_eq!(eval_int(NumOp::I32Ctz, i(0), i(0)), Ok(i(32)));
    assert_eq!(eval_int(NumOp::I64Popcnt, l(0xff00_ff00), l(0)), Ok(l(16)));
    assert_eq!(eval_int(NumOp::I32Extend8S, i(0x80), i(0)), Ok(i(0xffff_ff80)));
    assert_eq!(eval_int(NumOp::I64Extend32S, l(0x8000_0000), l(0)), Ok(l(0xffff_ffff_8000_0000)));
    assert_eq!(eval_int(NumOp::I32WrapI64, l(0x1_0000_0005), l(0)), Ok(i(5)));
    assert_eq!(eval_int(NumOp::I32LtS, i(u32::MAX), i(0)), Ok(i(1)));
    assert_eq!(eval_int(NumOp::I32LtU, i(u32::MAX), i(0)), Ok(i(0)));
    assert_eq!(
        eval_int(NumOp::F32Neg, Value::F32(0x3f80_0000), Value::F32(0)),
        Ok(Value::F32(0xbf80_0000))
    );
    assert_eq!(
        eval_int(NumOp::F64Copysign, Value::F64(0x3ff0_0000_0000_0000), Value::F64(0x8000_0000_0000_0000)),
        Ok(Value::F64(0xbff0_0000_0000_0000))
    );
}

#[test]
fn limits_and_sizes() {
    let l = |min: u32, max: Option<u32>| Limits { min, max };
    assert!(limits_match(&l(2, Some(3)), &l(1, Some(4))));
    assert!(!limits_match(&l(2, None), &l(1, Some(4))));
    assert!(!limits_match(&l(0, Some(3)), &l(1, None)));
    assert!(limits_match(&l(5, Some(5)), &l(5, Some(5))));
    assert_eq!(mem_bytes(2), Some(131072));
    assert_eq!(mem_bytes(0), Some(0));
}

fn memory_ops_module() -> Vec<u8> {
    let mut b = header();
    b.extend_from_slice(&[0x01, 0x05, 0x01, 0x60, 0x00, 0x01, 0x7f]);
    b.extend_from_slice(&[0x03, 0x03, 0x02, 0x00, 0x00]);
    b.extend_from_slice(&[0x05, 0x03, 0x01, 0x00, 0x01]);
    b.extend_from_slice(&[
        0x07, 0x0f, 0x02, 0x04, b'f', b'i', b'l', b'l', 0x00, 0x00, 0x04, b'g', b'r', b'o', b'w', 0x00, 0x01,
    ]);
    b.extend_from_slice(&[0x0a, 0x1d, 0x02]);
    // memory.fill 4 bytes of 0xab at 10, then i32.load at 10
    b.extend_from_slice(&[
        0x11, 0x00, 0x41, 0x0a, 0x41, 0xab, 0x01, 0x41, 0x04, 0xfc, 0x0b, 0x00, 0x41, 0x0a, 0x28, 0x02, 0x00,
        0x0b,
    ]);
    // memory.grow 1, drop, memory.size
    b.extend_from_slice(&[0x09, 0x00, 0x41, 0x01, 0x40, 0x00, 0x1a, 0x3f, 0x00, 0x0b]);
    b
}

#[test]
fn memory_fill_then_load() {
    let mut store = Store::new();
    let inst = instance(&mut store, &memory_ops_module());
    assert_eq!(call(&mut store, inst, "fill", &[]), Ok(vec![Value::I32(0xabab_abab)]));
}

#[test]
fn memory_grow_adds_pages() {
    let mut store = Store::new();
    let inst = instance(&mut store, &memory_ops_module());
    assert_eq!(call(&mut store, inst, "grow", &[]), Ok(vec![Value::I32(2)]));
    assert_eq!(call(&mut store, inst, "grow", &[]), Ok(vec![Value::I32(3)]));
}

/// A memory, a funcref table and a global, with one active element
/// segment (function 0 at slot 1) and one active data segment.
fn segments_module(data_offset: u8) -> Vec<u8> {
    let mut b = header();
    b.extend_from_slice(&[0x01, 0x04, 0x01, 0x60, 0x00, 0x00]);
    b.extend_from_slice(&[0x03, 0x02, 0x01, 0x00]);
    b.extend_from_slice(&[0x04, 0x04, 0x01, 0x70, 0x00, 0x03]);
    b.extend_from_slice(&[0x05, 0x03, 0x01, 0x00, 0x01]);
    b.extend_from_slice(&[0x06, 0x06, 0x01, 0x7f, 0x00, 0x41, 0x07, 0x0b]);
    b.extend_from_slice(&[
        0x07, 0x0d, 0x03, 0x01, b'm', 0x02, 0x00, 0x01, b't', 0x01, 0x00, 0x01, b'g', 0x03, 0x00,
    ]);
    b.extend_from_slice(&[0x09, 0x07, 0x01, 0x00, 0x41, 0x01, 0x0b, 0x01, 0x00]);
    b.extend_from_slice(&[0x0a, 0x04, 0x01, 0x02, 0x00, 0x0b]);
    // data at i32.const `data_offset` (a one-byte LEB), bytes 1 2 3 4
    b.extend_from_slice(&[0x0b, 0x0a, 0x01, 0x00, 0x41, data_offset, 0x0b, 0x04, 1, 2, 3, 4]);
    b
}

#[test]
fn instantiation_applies_segments_and_initializers() {
    let mut store = Store::new();
    let inst = instance(&mut store, &segments_module(4));
    let mem = match store.export_val(inst, "m") {
        Some(ExternVal::Mem(a)) => a,
        _ => panic!("memory export"),
    };
    let data = &store.mems[mem].data;
    assert_eq!(data.len(), 65536);
    assert_eq!(&data[0..10], &[0, 0, 0, 0, 1, 2, 3, 4, 0, 0]);
    let table = match store.export_val(inst, "t") {
        Some(ExternVal::Table(a)) => a,
        _ => panic!("table export"),
    };
    let elems = &store.tables[table].elems;
    assert_eq!(elems.len(), 3);
    assert_eq!(elems[0], Value::FuncRef(None));
    assert!(matches!(elems[1], Value::FuncRef(Some(_))));
    assert_eq!(elems[2], Value::FuncRef(None));
    let global = match store.export_val(inst, "g") {
        Some(ExternVal::Global(a)) => a,
        _ => panic!("global export"),
    };
    assert_eq!(store.globals[global].val, Value::I32(7));
}

#[test]
fn data_segment_past_the_memory_traps() {
    let mut store = Store::new();
    // A one-byte LEB of 0x7c is -4: the segment starts 4 bytes below 2^32.
    match build_instance(&mut store, &segments_module(0x7c), &Vec::new()) {
        Err(InstOutcome::Uninstantiable(m)) => assert_eq!(m, "out of bounds memory access"),
        Err(o) => panic!("unexpected outcome {}", o.describe()),
        Ok(_) => panic!("expected a trap"),
    }
}

#[test]
fn a_machine_without_a_frame_hands_over_its_values() {
    let mut store = Store::new();
    let mut m = Machine::new(&[Value::I32(1), Value::I64(2)]);
    match m.tick(&mut store) {
        Some(Event::Done(v)) => assert_eq!(v, vec![Value::I32(1), Value::I64(2)]),
        _ => panic!("expected the values"),
    }
    assert!(m.values().is_empty());
}

#[test]
fn a_run_without_fuel_pauses_and_resumes() {
    let mut store = Store::new();
    let inst = instance(&mut store, &add_module());
    let mut m = match store.invoke_export(inst, "add", &[Value::I32(40), Value::I32(2)]) {
        Ok(m) => m,
        Err(e) => panic!("{}", e.message()),
    };
    assert!(matches!(m.run(&mut store, 0), Event::Paused));
    assert!(matches!(m.run(&mut store, 1), Event::Paused));
    assert_eq!(finish(&mut store, m), Ok(vec![Value::I32(42)]));
}

#[test]
fn spectest_exports_its_printers_first() {
    let mut store = Store::new();
    let spectest = store.add_host_module(spectest_module()).unwrap();
    let names: Vec<String> = store.exports(spectest).into_iter().map(|(n, _)| n).collect();
    assert_eq!(
        names,
        vec![
            "print", "print_i32", "print_i64", "print_f32", "print_f64", "print_i32_f32", "print_f64_f64",
            "global_i32", "global_i64", "global_f32", "global_f64", "table", "memory",
        ]
    );
}

#[test]
fn a_header_alone_is_an_empty_instance() {
    let mut store = Store::new();
    match build_instance(&mut store, &header(), &Vec::new()) {
        Ok(i) => {
            assert_eq!(i.id, 0);
            assert!(i.start.is_none());
            assert!(store.exports(i.id).is_empty());
        },
        Err(o) => panic!("{}", o.describe()),
    }
    match build_instance(&mut store, b"\0asm\x02\0\0\0", &Vec::new()) {
        Err(InstOutcome::Malformed(_)) => {},
        _ => panic!("expected a malformed module"),
    }
    match build_instance(&mut store, b"\0as", &Vec::new()) {
        Err(InstOutcome::Malformed(_)) => {},
        _ => panic!("expected a malformed module"),
    }
}

#[test]
fn host_modules_are_checked_before_they_are_added() {
    let mut store = Store::new();
    let mut big = spectest_module();
    big.tables[0].1.limits.min = u32::MAX;
    assert_eq!(store.add_host_module(big), Err("host table table: exceeds implementation limit".to_string()));
    let mut forged = spectest_module();
    forged.globals[0].2 = Value::FuncRef(Some(1000));
    forged.globals[0].1.val = wasm_core::ValType::FuncRef;
    assert_eq!(
        store.add_host_module(forged),
        Err("host global global_i32: invalid function reference".to_string())
    );
    assert_eq!(store.add_host_module(spectest_module()), Ok(0));
}

#[test]
fn a_branch_past_the_labels_is_a_fault() {
    let mut store = Store::new();
    let inst = instance(&mut store, &add_module());
    let mut m = match store.invoke_export(inst, "add", &[Value::I32(1), Value::I32(2)]) {
        Ok(m) => m,
        Err(e) => panic!("{}", e.message()),
    };
    match m.do_branch(5) {
        Err(t) => assert_eq!(t.msg, "invalid machine state"),
        Ok(_) => panic!("expected a fault"),
    }
    // Label 0 is the function body: branching to it returns its result.
    m.push(Value::I32(9));
    assert_eq!(m.do_branch(0).ok(), Some(None));
    assert_eq!(m.values(), &vec![Value::I32(9)]);
}

#[test]
fn only_valid_modules_reach_linking() {
    let mut store = Store::new();
    let good = wasm_core::decode(&add_module()).unwrap();
    assert!(wasm_core::runner::build_decoded(&mut store, &good, &Vec::new()).is_ok());
    let mut b = header();
    b.extend_from_slice(&[0x01, 0x05, 0x01, 0x60, 0x00, 0x01, 0x7f]);
    b.extend_from_slice(&[0x03, 0x02, 0x01, 0x00]);
    b.extend_from_slice(&[0x0a, 0x04, 0x01, 0x02, 0x00, 0x0b]);
    let bad = wasm_core::decode(&b).unwrap();
    let before = store.instances.len();
    match wasm_core::runner::build_decoded(&mut store, &bad, &Vec::new()) {
        Err(InstOutcome::Invalid(_)) => {},
        _ => panic!("expected an invalid module"),
    }
    assert_eq!(store.instances.len(), before);
}

#[test]
fn unresolved_imports_are_named() {
    let mut store = Store::new();
    // (import "m" "g" (global i32))
    let module = {
        let mut m = header();
        m.extend_from_slice(&[0x02, 0x08, 0x01, 0x01, b'm', 0x01, b'g', 0x03, 0x7f, 0x00]);
        m
    };
    let decoded = wasm_core::decode(&module).unwrap();
    match wasm_core::runner::build_decoded(&mut store, &decoded, &Vec::new()) {
        Err(InstOutcome::Unlinkable(m)) => assert_eq!(m, "unknown import m.g"),
        _ => panic!("expected a link error"),
    }
}

#[test]
fn a_module_of_functions_instantiates() {
    let mut b = header();
    b.extend_from_slice(&[0x01, 0x04, 0x01, 0x60, 0x00, 0x00]);
    b.extend_from_slice(&[0x03, 0x02, 0x01, 0x00]);
    b.extend_from_slice(&[0x07, 0x05, 0x01, 0x01, b'f', 0x00, 0x00]);
    b.extend_from_slice(&[0x0a, 0x04, 0x01, 0x02, 0x00, 0x0b]);
    let mut store = Store::new();
    let inst = instance(&mut store, &b);
    assert_eq!(call(&mut store, inst, "f", &[]), Ok(vec![]));
}

#[test]
fn a_module_with_literal_globals_instantiates() {
    let mut b = header();
    b.extend_from_slice(&[0x01, 0x05, 0x01, 0x60, 0x00, 0x01, 0x7f]);
    b.extend_from_slice(&[0x03, 0x02, 0x01, 0x00]);
    b.extend_from_slice(&[0x06, 0x06, 0x01, 0x7f, 0x00, 0x41, 0x07, 0x0b]);
    b.extend_from_slice(&[0x07, 0x05, 0x01, 0x01, b'g', 0x00, 0x00]);
    b.extend_from_slice(&[0x0a, 0x06, 0x01, 0x04, 0x00, 0x23, 0x00, 0x0b]);
    let mut store = Store::new();
    let inst = instance(&mut store, &b);
    assert_eq!(call(&mut store, inst, "g", &[]), Ok(vec![Value::I32(7)]));
}

#[test]
fn a_module_with_a_table_and_a_memory_instantiates() {
    let mut b = header();
    b.extend_from_slice(&[0x01, 0x04, 0x01, 0x60, 0x00, 0x00]);
    b.extend_from_slice(&[0x03, 0x02, 0x01, 0x00]);
    b.extend_from_slice(&[0x04, 0x04, 0x01, 0x70, 0x00, 0x01]);
    b.extend_from_slice(&[0x05, 0x03, 0x01, 0x00, 0x01]);
    b.extend_from_slice(&[0x07, 0x05, 0x01, 0x01, b'f', 0x00, 0x00]);
    b.extend_from_slice(&[0x0a, 0x04, 0x01, 0x02, 0x00, 0x0b]);
    let mut store = Store::new();
    let inst = instance(&mut store, &b);
    assert_eq!(call(&mut store, inst, "f", &[]), Ok(vec![]));
}

#[test]
fn a_module_exporting_its_table_and_memory_instantiates() {
    let mut b = header();
    b.extend_from_slice(&[0x01, 0x04, 0x01, 0x60, 0x00, 0x00]);
    b.extend_from_slice(&[0x03, 0x02, 0x01, 0x00]);
    b.extend_from_slice(&[0x04, 0x04, 0x01, 0x70, 0x00, 0x01]);
    b.extend_from_slice(&[0x05, 0x03, 0x01, 0x00, 0x01]);
    b.extend_from_slice(&[
        0x07, 0x0d, 0x03, 0x01, b'f', 0x00, 0x00, 0x01, b't', 0x01, 0x00, 0x01, b'm', 0x02, 0x00,
    ]);
    b.extend_from_slice(&[0x0a, 0x04, 0x01, 0x02, 0x00, 0x0b]);
    let mut store = Store::new();
    let inst = instance(&mut store, &b);
    assert_eq!(call(&mut store, inst, "f", &[]), Ok(vec![]));
}

#[test]
fn a_global_initialized_from_an_import_reads_it() {
    let mut b = header();
    b.extend_from_slice(&[0x01, 0x05, 0x01, 0x60, 0x00, 0x01, 0x7f]);
    b.extend_from_slice(&[0x02, 0x18, 0x01, 0x08]);
    b.extend_from_slice(b"spectest");
    b.push(0x0a);
    b.extend_from_slice(b"global_i32");
    b.extend_from_slice(&[0x03, 0x7f, 0x00]);
    b.extend_from_slice(&[0x03, 0x02, 0x01, 0x00]);
    b.extend_from_slice(&[0x06, 0x06, 0x01, 0x7f, 0x00, 0x23, 0x00, 0x0b]);
    b.extend_from_slice(&[0x07, 0x05, 0x01, 0x01, b'g', 0x00, 0x00]);
    b.extend_from_slice(&[0x0a, 0x06, 0x01, 0x04, 0x00, 0x23, 0x01, 0x0b]);
    let mut store = Store::new();
    let spectest = store.add_host_module(spectest_module()).unwrap();
    let registry = vec![("spectest".to_string(), spectest)];
    let inst = build_instance(&mut store, &b, &registry).ok().unwrap().id;
    assert_eq!(call(&mut store, inst, "g", &[]), Ok(vec![Value::I32(666)]));
}
