use wasm_core::decode;
use wasm_core::module::Module;
use wasm_core::DecodeError;

fn dec(bytes: &[u8]) -> Result<Module, DecodeError> {
    decode(bytes)
}

#[test]
fn empty_module() {
    assert!(dec(b"\0asm\x01\0\0\0").is_ok());
}

#[test]
fn bad_magic_and_version() {
    assert!(dec(b"\0ASM\x01\0\0\0").is_err());
    assert!(dec(b"\0asm\x02\0\0\0").is_err());
    assert!(dec(b"\0asm").is_err());
}

#[test]
fn uleb_bounds() {
    // u32 LEB with 6 bytes: representation too long.
    let m = b"\0asm\x01\0\0\0\x01\x86\x80\x80\x80\x80\x80\x00";
    assert!(dec(m).is_err());
    // 5th byte with unused high bits set: integer too large.
    let m2 = b"\0asm\x01\0\0\0\x01\x05\xff\xff\xff\xff\x7f";
    assert!(dec(m2).is_err());
}

#[test]
fn section_order_enforced() {
    // function section (3) before type section (1)
    let m = b"\0asm\x01\0\0\0\x03\x01\x00\x01\x01\x00";
    assert!(dec(m).is_err());
}

#[test]
fn truncated_section() {
    let m = b"\0asm\x01\0\0\0\x01\x7f";
    assert!(dec(m).is_err());
}

#[test]
fn decode_error_messages_name_the_offset() {
    let e = dec(b"\0ASM\x01\0\0\0").unwrap_err();
    assert_eq!(e.offset, 0);
    assert_eq!(e.message(), format!("{} (at offset 0x0)", e.msg));
    let e = dec(b"\0asm\x01\0\0\0\x01\x7f").unwrap_err();
    assert!(e.offset >= 8);
    assert!(e.message().ends_with(&format!("(at offset {:#x})", e.offset)));
}

#[test]
fn magic_only_is_unexpected_end() {
    let e = dec(b"\0asm").unwrap_err();
    assert_eq!(e.msg, "unexpected end");
}

#[test]
fn add_function_decodes() {
    let m = dec(&add_module()).unwrap();
    assert_eq!(m.types.len(), 1);
    assert_eq!(m.funcs.len(), 1);
    assert_eq!(m.codes.len(), 1);
    assert_eq!(m.exports.len(), 1);
    assert_eq!(m.exports[0].name, "add");
    assert!(wasm_core::validate(&m).is_ok());
}

#[test]
fn invalid_utf8_name_is_malformed() {
    // export name holding the byte 0xff
    let mut b = b"\0asm\x01\0\0\0".to_vec();
    b.extend_from_slice(&[0x01, 0x04, 0x01, 0x60, 0x00, 0x00]);
    b.extend_from_slice(&[0x03, 0x02, 0x01, 0x00]);
    b.extend_from_slice(&[0x07, 0x05, 0x01, 0x01, 0xff, 0x00, 0x00]);
    b.extend_from_slice(&[0x0a, 0x04, 0x01, 0x02, 0x00, 0x0b]);
    let e = dec(&b).unwrap_err();
    assert_eq!(e.msg, "malformed UTF-8 encoding");
}

#[test]
fn type_mismatch_is_invalid() {
    // (func (result i32) i64.const 0)
    let mut b = b"\0asm\x01\0\0\0".to_vec();
    b.extend_from_slice(&[0x01, 0x05, 0x01, 0x60, 0x00, 0x01, 0x7f]);
    b.extend_from_slice(&[0x03, 0x02, 0x01, 0x00]);
    b.extend_from_slice(&[0x0a, 0x06, 0x01, 0x04, 0x00, 0x42, 0x00, 0x0b]);
    let m = dec(&b).unwrap();
    let e = wasm_core::validate(&m).unwrap_err();
    assert!(e.message().contains("type mismatch"));
}

fn add_module() -> Vec<u8> {
    let mut b = b"\0asm\x01\0\0\0".to_vec();
    b.extend_from_slice(&[0x01, 0x07, 0x01, 0x60, 0x02, 0x7f, 0x7f, 0x01, 0x7f]);
    b.extend_from_slice(&[0x03, 0x02, 0x01, 0x00]);
    b.extend_from_slice(&[0x07, 0x07, 0x01, 0x03, b'a', b'd', b'd', 0x00, 0x00]);
    b.extend_from_slice(&[0x0a, 0x09, 0x01, 0x07, 0x00, 0x20, 0x00, 0x20, 0x01, 0x6a, 0x0b]);
    b
}

#[test]
fn data_count_must_match_the_data_section() {
    // data count 1, no data section
    assert!(wasm_core::decode(b"\0asm\x01\0\0\0\x0c\x01\x01").is_err());
    // data count 0, no data section
    let m = wasm_core::decode(b"\0asm\x01\0\0\0\x0c\x01\x00").unwrap();
    assert_eq!(m.datas.len(), 0);
    // data count 1, one passive segment of one byte
    let m = wasm_core::decode(b"\0asm\x01\0\0\0\x0c\x01\x01\x0b\x04\x01\x01\x01\x07").unwrap();
    assert_eq!(m.datas.len(), 1);
    // data count 2, one segment
    assert!(wasm_core::decode(b"\0asm\x01\0\0\0\x0c\x01\x02\x0b\x04\x01\x01\x01\x07").is_err());
}

fn many_locals(leb: [u8; 3]) -> Vec<u8> {
    let mut b = b"\0asm\x01\0\0\0".to_vec();
    b.extend_from_slice(&[0x01, 0x04, 0x01, 0x60, 0x00, 0x00]);
    b.extend_from_slice(&[0x03, 0x02, 0x01, 0x00]);
    b.extend_from_slice(&[0x0a, 0x08, 0x01, 0x06, 0x01, leb[0], leb[1], leb[2], 0x7f, 0x0b]);
    b
}

#[test]
fn locals_past_the_engine_limit_are_rejected() {
    let m = wasm_core::decode(&many_locals([0xc0, 0x84, 0x3d])).unwrap();
    assert_eq!(m.codes[0].locals.len(), 1_000_000);
    match wasm_core::decode(&many_locals([0xc1, 0x84, 0x3d])) {
        Err(e) => assert!(e.msg.starts_with("too many locals")),
        Ok(_) => panic!("expected too many locals"),
    }
}

#[test]
fn type_count_is_read_as_the_number_of_types() {
    let m = wasm_core::decode(b"\0asm\x01\0\0\0\x01\x07\x02\x60\x00\x00\x60\x00\x00").unwrap();
    assert_eq!(m.types.len(), 2);
    assert!(wasm_core::decode(b"\0asm\x01\0\0\0\x01\x05\xff\xff\xff\xff\x7f").is_err());
}
