//! The judging rules of the conformance runner: which command types are
//! known, what each assertion requires of the engine's outcome (and at
//! which stage a module must fail), and the accounting of verdicts.
use vstd::prelude::*;
use crate::json::{match_expected, verdict, Json};
use crate::runner::{debug_text, quoted, trap_text_matches, Verdict};
use crate::text::{join, join3, text};
use crate::values::Value;

verus! {

/// Whether `t` is one of the command types the runner knows.
pub open spec fn known_command(t: Seq<char>) -> bool {
    ||| t == "module"@
    ||| t == "register"@
    ||| t == "action"@
    ||| t == "assert_return"@
    ||| t == "assert_trap"@
    ||| t == "assert_exhaustion"@
    ||| t == "assert_malformed"@
    ||| t == "assert_invalid"@
    ||| t == "assert_unlinkable"@
    ||| t == "assert_uninstantiable"@
}

/// Whether two strings hold the same characters.
fn same(a: &str, b: &str) -> (r: bool)
    ensures
        r == (a@ == b@),
{
    crate::runner::same_text(a, b)
}

/// Whether the runner knows command type `cmd_type`.
pub fn command_known(cmd_type: &str) -> (b: bool)
    ensures
        b <==> known_command(cmd_type@),
{
    same(cmd_type, "module") || same(cmd_type, "register") || same(cmd_type, "action") || same(
        cmd_type,
        "assert_return",
    ) || same(cmd_type, "assert_trap") || same(cmd_type, "assert_exhaustion") || same(
        cmd_type,
        "assert_malformed",
    ) || same(cmd_type, "assert_invalid") || same(cmd_type, "assert_unlinkable") || same(
        cmd_type,
        "assert_uninstantiable",
    )
}

/// The verdict on a command of an unknown type: it fails, never skipped.
pub fn unknown_command(cmd_type: &str) -> (v: Verdict)
    ensures
        v matches Verdict::Fail(m) && m@ == "unknown command type "@ + debug_text(cmd_type@) + " (fail-closed)"@,
{
    Verdict::Fail(join3("unknown command type ", quoted(cmd_type).as_str(), " (fail-closed)"))
}

/// The verdict on an `assert_malformed` command: a text-format module is
/// outside the binary engine (unsupported); a binary one passes exactly
/// when decoding it failed (`decode_failed`, `None` where it was not
/// decoded); any other module type fails.
pub fn judge_malformed(module_type: Option<&str>, decode_failed: Option<bool>) -> (v: Verdict)
    ensures
        module_type matches Some(t) && t@ == "text"@ ==> v is Unsupported,
        module_type matches Some(t) && t@ == "binary"@ ==> (v is Pass <==> decode_failed == Some(true)) && !(v is Unsupported),
        !(module_type matches Some(t) && (t@ == "text"@ || t@ == "binary"@)) ==> v is Fail,
        module_type is None ==> (v matches Verdict::Fail(m) && m@ == "unknown module_type None (fail-closed)"@),
        module_type matches Some(t) ==> (t@ != "text"@ && t@ != "binary"@ ==> (v matches Verdict::Fail(m) && m@
            == "unknown module_type Some("@ + debug_text(t@) + ") (fail-closed)"@)),
{
    proof {
        reveal_strlit("text");
        reveal_strlit("binary");
        assert("text"@ != "binary"@) by {
            assert("text"@.len() != "binary"@.len());
        }
    }
    match module_type {
        Some(t) => {
            if same(t, "text") {
                Verdict::Unsupported(text("text-format module (method boundary)"))
            } else if same(t, "binary") {
                match decode_failed {
                    Some(true) => Verdict::Pass,
                    Some(false) => Verdict::Fail(text("malformed module was decoded successfully")),
                    None => Verdict::Fail(text("binary module was not decoded")),
                }
            } else {
                Verdict::Fail(join3("unknown module_type Some(", quoted(t).as_str(), ") (fail-closed)"))
            }
        },
        None => Verdict::Fail(text("unknown module_type None (fail-closed)")),
    }
}

/// The verdict on an `assert_invalid` command: it passes exactly when the
/// module decoded (`decoded`, with the decoder's message otherwise) and
/// then failed validation; a module that does not decode fails at the
/// wrong stage.
pub fn judge_invalid(decoded: &Result<(), String>, validate_ok: bool) -> (v: Verdict)
    ensures
        v is Pass <==> decoded is Ok && !validate_ok,
        !(v is Unsupported),
        decoded matches Err(e) ==> (v matches Verdict::Fail(m) && m@
            == "invalid-module test failed at decode stage (must decode, then fail validation): "@ + e@),
        decoded is Ok && validate_ok ==> (v matches Verdict::Fail(m) && m@ == "invalid module passed validation"@),
{
    match decoded {
        Err(e) => Verdict::Fail(
            join("invalid-module test failed at decode stage (must decode, then fail validation): ", e.as_str()),
        ),
        Ok(()) => if validate_ok {
            Verdict::Fail(text("invalid module passed validation"))
        } else {
            Verdict::Pass
        },
    }
}

/// Why the results of an action do not meet an `assert_return`.
pub enum ReturnFault {
    /// The numbers of actual and expected results differ.
    Arity { actual: usize, expected: usize },
    /// Result `i` does not match its expectation.
    Mismatch(usize),
    /// Expectation `i` is malformed, with the reason.
    Bad(usize, String),
}

/// Judges the results of an action against the expected-value objects of
/// an `assert_return`: the counts must agree, and the results are judged
/// in order, the first that does not match deciding.
pub fn judge_return(actual: &Vec<Value>, expected: &Vec<Json>) -> (r: Result<(), ReturnFault>)
    ensures
        r is Ok <==> actual@.len() == expected@.len() && forall|i: int| 0 <= i < actual@.len()
            ==> #[trigger] verdict(actual@[i], expected@[i]) == Ok::<bool, Seq<char>>(true),
        (r matches Err(ReturnFault::Arity { .. })) <==> actual@.len() != expected@.len(),
        r matches Err(ReturnFault::Arity { actual: a, expected: e }) ==> a == actual@.len() && e == expected@.len(),
        r matches Err(ReturnFault::Mismatch(i)) ==> i < actual@.len() && verdict(actual@[i as int], expected@[i as int])
            == Ok::<bool, Seq<char>>(false),
        r matches Err(ReturnFault::Bad(i, m)) ==> i < actual@.len() && verdict(actual@[i as int], expected@[i as int])
            == Err::<bool, Seq<char>>(m@),
        r matches Err(ReturnFault::Mismatch(i)) ==> forall|j: int| 0 <= j < i ==> #[trigger] verdict(actual@[j], expected@[j])
            == Ok::<bool, Seq<char>>(true),
        r matches Err(ReturnFault::Bad(i, _)) ==> forall|j: int| 0 <= j < i ==> #[trigger] verdict(actual@[j], expected@[j])
            == Ok::<bool, Seq<char>>(true),
{
    if actual.len() != expected.len() {
        return Err(ReturnFault::Arity { actual: actual.len(), expected: expected.len() });
    }
    let mut i: usize = 0;
    while i < actual.len()
        invariant
            i <= actual@.len(),
            actual@.len() == expected@.len(),
            forall|j: int| 0 <= j < i ==> #[trigger] verdict(actual@[j], expected@[j]) == Ok::<bool, Seq<char>>(true),
        decreases actual@.len() - i,
    {
        match match_expected(&actual[i], &expected[i]) {
            Ok(true) => {},
            Ok(false) => {
                return Err(ReturnFault::Mismatch(i));
            },
            Err(m) => {
                return Err(ReturnFault::Bad(i, m));
            },
        }
        i = i + 1;
    }
    Ok(())
}

/// Why the outcome of an action does not meet an `assert_trap`.
pub enum TrapFault {
    /// The action returned results.
    Results,
    /// The action failed otherwise than by a trap.
    NotTrap,
    /// The action trapped with a message that does not match.
    Mismatch,
}

/// Whether `s` starts with `"trap: "` and the rest matches `expected` by
/// the trap-message rule.
pub open spec fn trap_outcome_matches(s: Seq<char>, expected: Seq<char>) -> bool {
    "trap: "@.is_prefix_of(s) && trap_text_matches(s.skip(6), expected)
}

/// Whether `a` from position `at` on and `b` agree on their common length.
fn agree_from(a: &str, at: usize, b: &str) -> (r: bool)
    requires
        at <= a@.len(),
    ensures
        r == (a@.skip(at as int).is_prefix_of(b@) || b@.is_prefix_of(a@.skip(at as int))),
{
    let n = a.unicode_len();
    let m = b.unicode_len();
    let k_max = if n - at < m { n - at } else { m };
    let mut k: usize = 0;
    while k < k_max
        invariant
            n == a@.len(),
            m == b@.len(),
            at <= n,
            k <= k_max,
            k_max == if n - at < m { (n - at) as int } else { m as int },
            forall|j: int| 0 <= j < k ==> a@[at + j] == b@[j],
        decreases k_max - k,
    {
        if a.get_char(at + k) != b.get_char(k) {
            proof {
                assert(a@.skip(at as int)[k as int] == a@[at + k]);
            }
            return false;
        }
        k = k + 1;
    }
    proof {
        let s = a@.skip(at as int);
        assert forall|j: int| 0 <= j < k_max implies s[j] == b@[j] by {
            assert(s[j] == a@[at + j]);
        }
        if n - at < m {
            assert(s.is_prefix_of(b@));
        } else {
            assert(b@.is_prefix_of(s));
        }
    }
    true
}

/// Judges the outcome of an action against an `assert_trap` (or
/// `assert_exhaustion`): it passes exactly when the action failed with a
/// trap, reported as `"trap: "` and its message, whose message matches
/// `expected`.
pub fn judge_trap(outcome: &Result<Vec<Value>, String>, expected: &str) -> (r: Result<(), TrapFault>)
    ensures
        r is Ok <==> (outcome matches Err(e) && trap_outcome_matches(e@, expected@)),
        (r matches Err(TrapFault::Results)) <==> outcome is Ok,
        (r matches Err(TrapFault::NotTrap)) <==> (outcome matches Err(e) && !"trap: "@.is_prefix_of(e@)),
{
    proof {
        reveal_strlit("trap: ");
    }
    match outcome {
        Ok(_) => Err(TrapFault::Results),
        Err(e) => {
            let prefix = "trap: ";
            let n = e.unicode_len();
            let mut k: usize = 0;
            let mut is_trap = n >= 6;
            while k < 6 && is_trap
                invariant
                    n == e@.len(),
                    prefix@ == "trap: "@,
                    prefix@.len() == 6,
                    k <= 6,
                    is_trap ==> n >= 6 && forall|j: int| 0 <= j < k ==> e@[j] == prefix@[j],
                    !is_trap ==> !prefix@.is_prefix_of(e@),
                decreases 6 - k,
            {
                if e.get_char(k) != prefix.get_char(k) {
                    is_trap = false;
                    assert(e@.take(6)[k as int] != prefix@[k as int]);
                }
                k = k + 1;
            }
            if !is_trap {
                return Err(TrapFault::NotTrap);
            }
            assert(prefix@.is_prefix_of(e@));
            if agree_from(e.as_str(), 6, expected) {
                Ok(())
            } else {
                Err(TrapFault::Mismatch)
            }
        },
    }
}

/// Whether the verdict counts account for every command and meet the
/// expected totals, where given.
pub open spec fn accounting_holds(
    pass: u64,
    fail: u64,
    unsupported: u64,
    total: u64,
    expect_total: Option<u64>,
    expect_unsupported: Option<u64>,
) -> bool {
    &&& pass + fail + unsupported == total
    &&& expect_total matches Some(t) ==> total == t
    &&& expect_unsupported matches Some(u) ==> unsupported == u
}

/// Whether a run's accounting holds: every command got exactly one verdict
/// and the expected totals, where given, are met.
pub fn accounting_ok(
    pass: u64,
    fail: u64,
    unsupported: u64,
    total: u64,
    expect_total: Option<u64>,
    expect_unsupported: Option<u64>,
) -> (b: bool)
    ensures
        b <==> accounting_holds(pass, fail, unsupported, total, expect_total, expect_unsupported),
{
    let sum: u128 = pass as u128 + fail as u128 + unsupported as u128;
    let mut ok = sum == total as u128;
    match expect_total {
        Some(t) => if total != t {
            ok = false;
        },
        None => {},
    }
    match expect_unsupported {
        Some(u) => if unsupported != u {
            ok = false;
        },
        None => {},
    }
    ok
}

} // verus!
