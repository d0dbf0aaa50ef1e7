use wasm_core::json::Json;
use wasm_core::judge::{
    accounting_ok, command_known, judge_invalid, judge_malformed, judge_return, judge_trap, unknown_command,
    ReturnFault, TrapFault,
};
use wasm_core::runner::Verdict;
use wasm_core::Value;

fn fail_text(v: Verdict) -> String {
    match v {
        Verdict::Fail(m) => m,
        _ => panic!("expected a failure"),
    }
}

fn scalar(ty: &str, value: &str) -> Json {
    Json::Obj(vec![("type".to_string(), Json::Str(ty.to_string())), ("value".to_string(), Json::Str(value.to_string()))])
}

#[test]
fn unknown_commands_fail_closed() {
    for t in ["module", "register", "action", "assert_return", "assert_trap", "assert_exhaustion",
        "assert_malformed", "assert_invalid", "assert_unlinkable", "assert_uninstantiable"] {
        assert!(command_known(t));
    }
    assert!(!command_known("assert_soft_invalid"));
    assert_eq!(fail_text(unknown_command("assert_soft_invalid")), "unknown command type \"assert_soft_invalid\" (fail-closed)");
}

#[test]
fn malformed_modules_must_fail_to_decode() {
    assert!(matches!(judge_malformed(Some("text"), None), Verdict::Unsupported(_)));
    assert!(matches!(judge_malformed(Some("binary"), Some(true)), Verdict::Pass));
    assert_eq!(fail_text(judge_malformed(Some("binary"), Some(false))), "malformed module was decoded successfully");
    assert_eq!(fail_text(judge_malformed(Some("quote"), None)), "unknown module_type Some(\"quote\") (fail-closed)");
    assert_eq!(fail_text(judge_malformed(None, None)), "unknown module_type None (fail-closed)");
}

#[test]
fn invalid_modules_must_decode_then_fail_validation() {
    assert!(matches!(judge_invalid(&Ok(()), false), Verdict::Pass));
    assert_eq!(fail_text(judge_invalid(&Ok(()), true)), "invalid module passed validation");
    assert_eq!(
        fail_text(judge_invalid(&Err("bad".to_string()), false)),
        "invalid-module test failed at decode stage (must decode, then fail validation): bad"
    );
}

#[test]
fn results_are_judged_in_order() {
    let actual = vec![Value::I32(1), Value::I64(2)];
    assert!(judge_return(&actual, &vec![scalar("i32", "1"), scalar("i64", "2")]).is_ok());
    assert!(matches!(
        judge_return(&actual, &vec![scalar("i32", "1")]),
        Err(ReturnFault::Arity { actual: 2, expected: 1 })
    ));
    assert!(matches!(
        judge_return(&actual, &vec![scalar("i32", "1"), scalar("i64", "3")]),
        Err(ReturnFault::Mismatch(1))
    ));
    match judge_return(&actual, &vec![scalar("i32", "x"), scalar("i64", "3")]) {
        Err(ReturnFault::Bad(0, m)) => assert_eq!(m, "bad u32 \"x\": invalid digit found in string"),
        _ => panic!("expected a bad expectation"),
    }
}

#[test]
fn traps_are_judged_by_stage_and_message() {
    let trapped: Result<Vec<Value>, String> = Err("trap: uninitialized element 7".to_string());
    assert!(judge_trap(&trapped, "uninitialized element").is_ok());
    assert!(matches!(judge_trap(&trapped, "undefined element"), Err(TrapFault::Mismatch)));
    let other: Result<Vec<Value>, String> = Err("no such export: f".to_string());
    assert!(matches!(judge_trap(&other, "unreachable"), Err(TrapFault::NotTrap)));
    let returned: Result<Vec<Value>, String> = Ok(vec![]);
    assert!(matches!(judge_trap(&returned, "unreachable"), Err(TrapFault::Results)));
}

#[test]
fn accounting_covers_every_command() {
    assert!(accounting_ok(3, 1, 2, 6, Some(6), Some(2)));
    assert!(!accounting_ok(3, 1, 2, 7, None, None));
    assert!(!accounting_ok(3, 1, 2, 6, Some(7), None));
    assert!(!accounting_ok(3, 1, 2, 6, None, Some(1)));
    assert!(!accounting_ok(u64::MAX, 1, 0, 0, None, None));
}
