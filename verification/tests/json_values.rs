use wasm_core::json::{field, match_expected, parse_value, str_field, Json};
use wasm_core::Value;

fn s(x: &str) -> Json {
    Json::Str(x.to_string())
}

fn obj(members: Vec<(&str, Json)>) -> Json {
    Json::Obj(members.into_iter().map(|(k, v)| (k.to_string(), v)).collect())
}

fn scalar(ty: &str, value: &str) -> Json {
    obj(vec![("type", s(ty)), ("value", s(value))])
}

fn vector(lane_type: &str, lanes: &[&str]) -> Json {
    let arr = Json::Arr(lanes.iter().map(|l| s(l)).collect());
    obj(vec![("type", s("v128")), ("lane_type", s(lane_type)), ("value", arr)])
}

#[test]
fn field_finds_the_first_member_of_a_name() {
    let v = obj(vec![("a", s("x")), ("a", s("y")), ("b", Json::Null)]);
    match field(&v, "a") {
        Some(Json::Str(t)) => assert_eq!(t, "x"),
        _ => panic!("expected the first member"),
    }
    assert!(matches!(field(&v, "b"), Some(Json::Null)));
    assert!(field(&v, "c").is_none());
    assert!(field(&Json::Arr(vec![]), "a").is_none());
}

#[test]
fn str_field_reports_missing_and_non_string_members() {
    let v = obj(vec![("type", s("i32")), ("value", Json::Num(Some(7)))]);
    assert_eq!(str_field(&v, "type").unwrap(), "i32");
    let missing = str_field(&v, "lane_type").unwrap_err();
    assert_eq!(missing, "missing/non-string field \"lane_type\"");
    let wrong = str_field(&v, "value").unwrap_err();
    assert_eq!(wrong, "missing/non-string field \"value\"");
}

#[test]
fn scalar_values_are_parsed_by_type() {
    assert_eq!(parse_value(&scalar("i32", "7")).unwrap(), Value::I32(7));
    assert_eq!(parse_value(&scalar("i32", "4294967295")).unwrap(), Value::I32(u32::MAX));
    assert_eq!(parse_value(&scalar("i64", "18446744073709551615")).unwrap(), Value::I64(u64::MAX));
    assert_eq!(parse_value(&scalar("f32", "2139095040")).unwrap(), Value::F32(0x7f80_0000));
    assert_eq!(parse_value(&scalar("f64", "0")).unwrap(), Value::F64(0));
    assert_eq!(parse_value(&scalar("externref", "null")).unwrap(), Value::ExternRef(None));
    assert_eq!(parse_value(&scalar("externref", "12")).unwrap(), Value::ExternRef(Some(12)));
    assert_eq!(parse_value(&scalar("funcref", "null")).unwrap(), Value::FuncRef(None));
}

#[test]
fn unsupported_values_are_refused() {
    assert_eq!(
        parse_value(&scalar("i32", "4294967296")),
        Err("bad u32 \"4294967296\": number too large to fit in target type".to_string())
    );
    assert_eq!(
        parse_value(&scalar("i32", "-1")),
        Err("bad u32 \"-1\": invalid digit found in string".to_string())
    );
    assert_eq!(
        parse_value(&scalar("funcref", "3")),
        Err("non-null funcref argument unsupported: 3".to_string())
    );
    assert_eq!(
        parse_value(&scalar("exnref", "null")),
        Err("unknown value type \"exnref\" (fail-closed)".to_string())
    );
    assert_eq!(
        parse_value(&obj(vec![("value", s("1"))])),
        Err("missing/non-string field \"type\"".to_string())
    );
    assert_eq!(
        parse_value(&obj(vec![("type", s("i64"))])),
        Err("missing/non-string field \"value\"".to_string())
    );
}

#[test]
fn v128_lanes_are_packed_little_endian() {
    let v = parse_value(&vector("i32", &["1", "2", "3", "4"])).unwrap();
    let mut bytes = [0u8; 16];
    bytes[0] = 1;
    bytes[4] = 2;
    bytes[8] = 3;
    bytes[12] = 4;
    assert_eq!(v, Value::V128(u128::from_le_bytes(bytes)));
    let w = parse_value(&vector("i16", &["65535", "0", "0", "0", "0", "0", "0", "258"])).unwrap();
    let mut wb = [0u8; 16];
    wb[0] = 0xff;
    wb[1] = 0xff;
    wb[14] = 2;
    wb[15] = 1;
    assert_eq!(w, Value::V128(u128::from_le_bytes(wb)));
    let x = parse_value(&vector("i64", &["1", "18446744073709551615"])).unwrap();
    assert_eq!(x, Value::V128(1u128 | ((u64::MAX as u128) << 64)));
}

#[test]
fn v128_with_the_wrong_shape_is_refused() {
    assert_eq!(
        parse_value(&vector("i32", &["1", "2", "3"])),
        Err("v128 expects 4 lanes, got 3".to_string())
    );
    assert_eq!(parse_value(&vector("i128", &["1"])), Err("unknown v128 lane_type \"i128\"".to_string()));
    let not_array = obj(vec![("type", s("v128")), ("lane_type", s("i64")), ("value", s("0"))]);
    assert_eq!(parse_value(&not_array), Err("v128 value must be an array".to_string()));
    let not_string = obj(vec![
        ("type", s("v128")),
        ("lane_type", s("i64")),
        ("value", Json::Arr(vec![s("1"), Json::Num(Some(2))])),
    ]);
    assert_eq!(parse_value(&not_string), Err("v128 lane must be a string".to_string()));
    assert_eq!(
        parse_value(&vector("i64", &["1", "x"])),
        Err("bad u64 \"x\": invalid digit found in string".to_string())
    );
}

#[test]
fn expected_integers_and_references_match_exactly() {
    assert_eq!(match_expected(&Value::I32(7), &scalar("i32", "7")), Ok(true));
    assert_eq!(match_expected(&Value::I32(8), &scalar("i32", "7")), Ok(false));
    assert_eq!(match_expected(&Value::I64(7), &scalar("i32", "7")), Ok(false));
    assert_eq!(match_expected(&Value::ExternRef(None), &scalar("externref", "null")), Ok(true));
    assert_eq!(match_expected(&Value::ExternRef(Some(1)), &scalar("externref", "1")), Ok(true));
    assert_eq!(match_expected(&Value::ExternRef(Some(1)), &scalar("externref", "null")), Ok(false));
    assert_eq!(match_expected(&Value::FuncRef(Some(0)), &scalar("funcref", "null")), Ok(false));
    assert_eq!(
        match_expected(&Value::FuncRef(Some(0)), &scalar("funcref", "0")),
        Err("non-null funcref expectation unsupported: 0".to_string())
    );
    assert_eq!(
        match_expected(&Value::I32(1), &scalar("i32", "x")),
        Err("bad u32 \"x\": invalid digit found in string".to_string())
    );
    assert_eq!(
        match_expected(&Value::F32(1), &scalar("f32", "nan")),
        Err("bad u32 \"nan\": invalid digit found in string".to_string())
    );
}

#[test]
fn expected_nan_patterns_match_by_class() {
    let canonical = scalar("f32", "nan:canonical");
    let arithmetic = scalar("f32", "nan:arithmetic");
    assert_eq!(match_expected(&Value::F32(0x7fc0_0000), &canonical), Ok(true));
    assert_eq!(match_expected(&Value::F32(0xffc0_0000), &canonical), Ok(true));
    assert_eq!(match_expected(&Value::F32(0x7fc0_0001), &canonical), Ok(false));
    assert_eq!(match_expected(&Value::F32(0x7fc0_0001), &arithmetic), Ok(true));
    assert_eq!(match_expected(&Value::F32(0x7f80_0001), &arithmetic), Ok(false));
    let canonical64 = scalar("f64", "nan:canonical");
    assert_eq!(match_expected(&Value::F64(0x7ff8_0000_0000_0000), &canonical64), Ok(true));
    assert_eq!(match_expected(&Value::F64(0x7ff8_0000_0000_0001), &canonical64), Ok(false));
}

#[test]
fn expected_v128_lanes_are_judged_one_by_one() {
    let actual = parse_value(&vector("f32", &["2143289344", "1", "2", "3"])).unwrap();
    let exp = vector("f32", &["nan:canonical", "1", "2", "3"]);
    assert_eq!(match_expected(&actual, &exp), Ok(true));
    let wrong_lane = vector("f32", &["nan:canonical", "1", "2", "4"]);
    assert_eq!(match_expected(&actual, &wrong_lane), Ok(false));
    let too_wide = vector("i8", &["256", "0", "0", "0", "0", "0", "0", "0", "0", "0", "0", "0", "0", "0", "0", "0"]);
    assert_eq!(match_expected(&Value::V128(0), &too_wide), Ok(false));
    assert_eq!(match_expected(&actual, &vector("f32", &["1"])), Err("v128 expects 4 lanes, got 1".to_string()));
    assert_eq!(
        match_expected(&actual, &vector("f32", &["nan:canonical", "1", "x", "3"])),
        Err("bad u64 \"x\": invalid digit found in string".to_string())
    );
    assert_eq!(match_expected(&Value::I32(0), &exp), Ok(false));
}
