use wasm_core::decode;
use wasm_core::module::{Instr, Module};

/// A module with one function of type `[] -> [result]` and the given body
/// (which ends with its own `end`), optionally exporting it.
fn one_func(result: u8, body: &[u8], export: bool) -> Module {
    let mut b = b"\0asm\x01\0\0\0".to_vec();
    b.extend_from_slice(&[0x01, 0x05, 0x01, 0x60, 0x00, 0x01, result]);
    b.extend_from_slice(&[0x03, 0x02, 0x01, 0x00]);
    if export {
        b.extend_from_slice(&[0x07, 0x05, 0x01, 0x01, b'f', 0x00, 0x00]);
    }
    let mut entry = vec![0x00];
    entry.extend_from_slice(body);
    b.extend_from_slice(&[0x0a, (entry.len() + 2) as u8, 0x01, entry.len() as u8]);
    b.extend_from_slice(&entry);
    decode(&b).unwrap()
}

fn check(body: &[u8]) -> Result<(), String> {
    wasm_core::validate(&one_func(0x7f, body, false)).map_err(|e| e.message())
}

#[test]
fn operands_must_be_there() {
    assert_eq!(check(&[0x41, 0x01, 0x41, 0x02, 0x6a, 0x0b]), Ok(()));
    assert_eq!(check(&[0x41, 0x01, 0x6a, 0x0b]), Err("func 0: type mismatch".to_string()));
    assert_eq!(check(&[0x41, 0x01, 0x42, 0x01, 0x6a, 0x0b]), Err("func 0: type mismatch".to_string()));
}

#[test]
fn unreachable_code_is_stack_polymorphic() {
    // unreachable; i32.add; end
    assert_eq!(check(&[0x00, 0x6a, 0x0b]), Ok(()));
    // unreachable; i64.add; end leaves an i64 where an i32 is due
    assert_eq!(check(&[0x00, 0x7c, 0x0b]), Err("func 0: type mismatch".to_string()));
}

#[test]
fn branches_carry_their_label_types() {
    // block (result i32) i32.const 1 br 0 end end
    assert_eq!(check(&[0x02, 0x7f, 0x41, 0x01, 0x0c, 0x00, 0x0b, 0x0b]), Ok(()));
    // block (result i32) br 0 end end
    assert_eq!(check(&[0x02, 0x7f, 0x0c, 0x00, 0x0b, 0x0b]), Err("func 0: type mismatch".to_string()));
    // br 1 names no label
    assert_eq!(check(&[0x0c, 0x01, 0x0b]), Err("func 0: unknown label".to_string()));
}

#[test]
fn br_table_targets_share_an_arity() {
    // block (result i32) block i32.const 7 i32.const 0 br_table 0 1 end i32.const 1 end end
    let body = [
        0x02, 0x7f, 0x02, 0x40, 0x41, 0x07, 0x41, 0x00, 0x0e, 0x01, 0x00, 0x01, 0x0b, 0x41, 0x01, 0x0b,
        0x0b,
    ];
    assert_eq!(check(&body), Err("func 0: type mismatch".to_string()));
    // block (result i32) i32.const 7 i32.const 0 br_table 0 0 end end
    let same = [0x02, 0x7f, 0x41, 0x07, 0x41, 0x00, 0x0e, 0x01, 0x00, 0x00, 0x0b, 0x0b];
    assert_eq!(check(&same), Ok(()));
}

#[test]
fn ref_func_needs_a_declaration() {
    // (func (result funcref) ref.func 0)
    let body = [0xd2, 0x00, 0x0b];
    let m = one_func(0x70, &body, false);
    assert_eq!(
        wasm_core::validate(&m).map_err(|e| e.message()),
        Err("func 0: undeclared function reference".to_string())
    );
    // Exporting the function declares it.
    let m = one_func(0x70, &body, true);
    assert_eq!(wasm_core::validate(&m).map_err(|e| e.message()), Ok(()));
}

#[test]
fn structure_targets_are_resolved() {
    // block (result i32) i32.const 1 if (result i32) i32.const 2 else i32.const 3 end end end
    let body = [
        0x02, 0x7f, 0x41, 0x01, 0x04, 0x7f, 0x41, 0x02, 0x05, 0x41, 0x03, 0x0b, 0x0b, 0x0b,
    ];
    let m = one_func(0x7f, &body, false);
    let code = &m.codes[0].body;
    assert_eq!(code.len(), 9);
    match &code[0] {
        Instr::Block { end, .. } => assert_eq!(*end, 8),
        _ => panic!("expected a block"),
    }
    match &code[2] {
        Instr::If { else_, end, .. } => {
            assert_eq!(*else_, 5);
            assert_eq!(*end, 7);
        }
        _ => panic!("expected an if"),
    }
    match &code[4] {
        Instr::Else { end } => assert_eq!(*end, 7),
        _ => panic!("expected an else"),
    }
    assert_eq!(wasm_core::validate(&m).map_err(|e| e.message()), Ok(()));
}

#[test]
fn blocks_in_a_first_arm_close_before_its_else() {
    // if block end else nop end end
    let body = [0x04, 0x40, 0x02, 0x40, 0x0b, 0x05, 0x01, 0x0b, 0x0b];
    let m = one_func(0x7f, &body, false);
    let code = &m.codes[0].body;
    assert_eq!(code.len(), 7);
    match &code[0] {
        Instr::If { else_, end, .. } => {
            assert_eq!(*else_, 4);
            assert_eq!(*end, 6);
        }
        _ => panic!("expected an if"),
    }
    match &code[1] {
        Instr::Block { end, .. } => assert_eq!(*end, 3),
        _ => panic!("expected a block"),
    }
    match &code[3] {
        Instr::Else { end } => assert_eq!(*end, 6),
        _ => panic!("expected an else"),
    }
}

#[test]
fn sections_out_of_order_are_malformed() {
    // A function section before the type section.
    let mut b = b"\0asm\x01\0\0\0".to_vec();
    b.extend_from_slice(&[0x03, 0x01, 0x00]);
    b.extend_from_slice(&[0x01, 0x01, 0x00]);
    let e = decode(&b).unwrap_err();
    assert_eq!(e.msg, "unexpected content after last section");
}

#[test]
fn custom_sections_alone_decode_to_an_empty_module() {
    let mut b = b"\0asm\x01\0\0\0".to_vec();
    // A custom section named "name" with two bytes of content, then one with an empty name.
    b.extend_from_slice(&[0x00, 0x07, 0x04, b'n', b'a', b'm', b'e', 0xff, 0x01]);
    b.extend_from_slice(&[0x00, 0x01, 0x00]);
    let m = decode(&b).unwrap();
    assert!(m.types.is_empty() && m.funcs.is_empty() && m.codes.is_empty());
    // A name that is not UTF-8 is malformed.
    let mut bad = b"\0asm\x01\0\0\0".to_vec();
    bad.extend_from_slice(&[0x00, 0x02, 0x01, 0xff]);
    assert_eq!(decode(&bad).unwrap_err().msg, "malformed UTF-8 encoding");
}
