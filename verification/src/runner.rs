//! Judging logic of the conformance runner: the spectest host module,
//! module building with registry-based import resolution, number and NaN
//! pattern matching, and trap-message matching.
use vstd::prelude::*;
use crate::decode::decode;
use crate::error::InvokeError;
use crate::store::{ExternVal, HostModule, InstanceId, Instantiated, Store, first_named, simple_module, all_imports_resolved, import_missing, import_resolved, lemma_first_named};
use crate::text::{join, join3, text};
use crate::types::{FuncType, GlobalType, Limits, MemType, RefType, TableType, ValType, copy_vals};
use crate::validate::{body_valid, module_shallow_ok, validate};
use crate::module::{Module, module_is_empty};
use crate::values::Value;

verus! {

/// One judged command.
pub struct Row {
    pub line: u64,
    pub cmd_type: String,
    pub verdict: &'static str,
    pub reason: String,
}

/// The verdicts of one corpus file.
pub struct FileResult {
    pub file: String,
    pub total: u64,
    pub pass: u64,
    pub fail: u64,
    pub unsupported: u64,
    pub rows: Vec<Row>,
}

/// The judgement of one command.
pub enum Verdict {
    Pass,
    Fail(String),
    Unsupported(String),
}

impl FileResult {
    /// Every command counted under exactly one verdict.
    pub open spec fn accounted(&self) -> bool {
        &&& self.pass + self.fail + self.unsupported == self.total
        &&& self.rows@.len() == self.total
    }

    /// A result for `file` with no command judged yet.
    pub fn new(file: String) -> (r: FileResult)
        ensures
            r.accounted(),
            r.total == 0,
            r.file@ == file@,
    {
        FileResult { file, total: 0, pass: 0, fail: 0, unsupported: 0, rows: Vec::new() }
    }

    /// Books one judged command: its row and exactly one counter.
    pub fn record(&mut self, line: u64, cmd_type: String, verdict: Verdict)
        requires
            old(self).accounted(),
            old(self).total < u64::MAX,
        ensures
            final(self).accounted(),
            final(self).total == old(self).total + 1,
            final(self).pass == old(self).pass + if verdict is Pass { 1int } else { 0int },
            final(self).fail == old(self).fail + if verdict is Fail { 1int } else { 0int },
            final(self).unsupported == old(self).unsupported + if verdict is Unsupported { 1int } else { 0int },
            final(self).rows@.len() == old(self).rows@.len() + 1,
            final(self).rows@.last().line == line,
            final(self).rows@.last().verdict@ == match verdict {
                Verdict::Pass => "PASS"@,
                Verdict::Fail(_) => "FAIL"@,
                Verdict::Unsupported(_) => "UNSUPPORTED"@,
            },
            final(self).file == old(self).file,
    {
        self.total = self.total + 1;
        let (v, reason) = match verdict {
            Verdict::Pass => {
                self.pass = self.pass + 1;
                ("PASS", String::new())
            },
            Verdict::Fail(r) => {
                self.fail = self.fail + 1;
                ("FAIL", r)
            },
            Verdict::Unsupported(r) => {
                self.unsupported = self.unsupported + 1;
                ("UNSUPPORTED", r)
            },
        };
        self.rows.push(Row { line, cmd_type, verdict: v, reason });
    }
}

/// A function type with the given parameters and results.
pub fn ft(params: &[ValType], results: &[ValType]) -> (r: FuncType)
    ensures
        r.params@ == params@,
        r.results@ == results@,
{
    FuncType { params: copy_vals(params), results: copy_vals(results) }
}

/// The bits of 666.6 as an f32.
pub const SPECTEST_F32_BITS: u32 = 0x4426a666;

/// The bits of 666.6 as an f64.
pub const SPECTEST_F64_BITS: u64 = 0x4084d4cccccccccd;

/// Whether host function `f` is named `name` and takes `params`, returning
/// nothing.
pub open spec fn printer(f: (String, FuncType), name: Seq<char>, params: Seq<ValType>) -> bool {
    &&& f.0@ == name
    &&& f.1.params@ == params
    &&& f.1.results@ == Seq::<ValType>::empty()
}

/// The spectest host module, as the reference interpreter's host
/// environment defines it: printing functions (whose host code does
/// nothing), four immutable globals, a table and a memory.
pub fn spectest_module() -> (m: HostModule)
    ensures
        m.funcs@.len() == 7,
        m.globals@.len() == 4,
        m.tables@.len() == 1,
        m.mems@.len() == 1,
        m.globals@[0].2 == Value::I32(666),
        m.globals@[1].2 == Value::I64(666),
        m.globals@[2].2 == Value::F32(SPECTEST_F32_BITS),
        m.globals@[3].2 == Value::F64(SPECTEST_F64_BITS),
        forall|k: int| 0 <= k < 4 ==> !(#[trigger] m.globals@[k]).1.mutable,
        m.tables@[0].1 == (TableType { elem: RefType::FuncRef, limits: Limits { min: 10, max: Some(20) } }),
        m.mems@[0].1 == (MemType { limits: Limits { min: 1, max: Some(2) } }),
        printer(m.funcs@[0], "print"@, seq![]),
        printer(m.funcs@[1], "print_i32"@, seq![ValType::I32]),
        printer(m.funcs@[2], "print_i64"@, seq![ValType::I64]),
        printer(m.funcs@[3], "print_f32"@, seq![ValType::F32]),
        printer(m.funcs@[4], "print_f64"@, seq![ValType::F64]),
        printer(m.funcs@[5], "print_i32_f32"@, seq![ValType::I32, ValType::F32]),
        printer(m.funcs@[6], "print_f64_f64"@, seq![ValType::F64, ValType::F64]),
        m.globals@[0].0@ == "global_i32"@ && m.globals@[0].1.val == ValType::I32,
        m.globals@[1].0@ == "global_i64"@ && m.globals@[1].1.val == ValType::I64,
        m.globals@[2].0@ == "global_f32"@ && m.globals@[2].1.val == ValType::F32,
        m.globals@[3].0@ == "global_f64"@ && m.globals@[3].1.val == ValType::F64,
        m.tables@[0].0@ == "table"@,
        m.mems@[0].0@ == "memory"@,
{
    let mut funcs: Vec<(String, FuncType)> = Vec::new();
    funcs.push((text("print"), ft(&[], &[])));
    funcs.push((text("print_i32"), ft(&[ValType::I32], &[])));
    funcs.push((text("print_i64"), ft(&[ValType::I64], &[])));
    funcs.push((text("print_f32"), ft(&[ValType::F32], &[])));
    funcs.push((text("print_f64"), ft(&[ValType::F64], &[])));
    funcs.push((text("print_i32_f32"), ft(&[ValType::I32, ValType::F32], &[])));
    funcs.push((text("print_f64_f64"), ft(&[ValType::F64, ValType::F64], &[])));
    let mut globals: Vec<(String, GlobalType, Value)> = Vec::new();
    globals.push((text("global_i32"), GlobalType { val: ValType::I32, mutable: false }, Value::I32(666)));
    globals.push((text("global_i64"), GlobalType { val: ValType::I64, mutable: false }, Value::I64(666)));
    globals.push((text("global_f32"), GlobalType { val: ValType::F32, mutable: false }, Value::F32(SPECTEST_F32_BITS)));
    globals.push((text("global_f64"), GlobalType { val: ValType::F64, mutable: false }, Value::F64(SPECTEST_F64_BITS)));
    let mut tables: Vec<(String, TableType)> = Vec::new();
    tables.push((text("table"), TableType { elem: RefType::FuncRef, limits: Limits { min: 10, max: Some(20) } }));
    let mut mems: Vec<(String, MemType)> = Vec::new();
    mems.push((text("memory"), MemType { limits: Limits { min: 1, max: Some(2) } }));
    assert(funcs@[0].1.params@ =~= Seq::<ValType>::empty());
    assert(funcs@[1].1.params@ =~= seq![ValType::I32]);
    assert(funcs@[2].1.params@ =~= seq![ValType::I64]);
    assert(funcs@[3].1.params@ =~= seq![ValType::F32]);
    assert(funcs@[4].1.params@ =~= seq![ValType::F64]);
    assert(funcs@[5].1.params@ =~= seq![ValType::I32, ValType::F32]);
    assert(funcs@[6].1.params@ =~= seq![ValType::F64, ValType::F64]);
    HostModule { funcs, globals, tables, mems }
}

/// Trap-message matching: a trap message matches when one message is a
/// prefix of the other (covers "uninitialized element 7" vs
/// "uninitialized element").
pub open spec fn trap_text_matches(actual: Seq<char>, expected: Seq<char>) -> bool {
    expected.is_prefix_of(actual) || actual.is_prefix_of(expected)
}

/// Whether `p` is a prefix of `s`.
fn starts_with(s: &str, p: &str) -> (r: bool)
    ensures
        r == p@.is_prefix_of(s@),
{
    let n = s.unicode_len();
    let m = p.unicode_len();
    if m > n {
        return false;
    }
    let mut i: usize = 0;
    while i < m
        invariant
            m <= n,
            n == s@.len(),
            m == p@.len(),
            i <= m,
            forall|k: int| 0 <= k < i ==> s@[k] == p@[k],
        decreases m - i,
    {
        if s.get_char(i) != p.get_char(i) {
            return false;
        }
        i = i + 1;
    }
    true
}

pub fn trap_matches(actual: &str, expected: &str) -> (r: bool)
    ensures
        r == trap_text_matches(actual@, expected@),
{
    starts_with(actual, expected) || starts_with(expected, actual)
}

/// Trap matching does not depend on which message is the actual one.
pub proof fn lemma_trap_match_symmetric(a: Seq<char>, b: Seq<char>)
    ensures
        trap_text_matches(a, b) == trap_text_matches(b, a),
{
}

/// Every message matches itself, and every message matches the empty one.
pub proof fn lemma_trap_match_reflexive(a: Seq<char>)
    ensures
        trap_text_matches(a, a),
        trap_text_matches(a, Seq::empty()),
{
    assert(a.is_prefix_of(a));
    assert(Seq::<char>::empty().is_prefix_of(a));
}

/// The text an invocation error is reported with.
pub open spec fn invoke_err_text(e: InvokeError) -> Seq<char> {
    match e {
        InvokeError::Trap(t) => "trap: "@ + t.msg@,
        InvokeError::NoSuchExport(n) => "no such export: "@ + n@,
        InvokeError::KindMismatch(m) => "export kind mismatch: "@ + m@,
        InvokeError::ArgMismatch(m) => "argument mismatch: "@ + m@,
    }
}

pub fn invoke_err(e: &InvokeError) -> (r: String)
    ensures
        r@ == invoke_err_text(*e),
{
    match e {
        InvokeError::Trap(t) => join("trap: ", t.msg.as_str()),
        _ => e.message(),
    }
}

/// Why building a module instance failed, by stage.
pub enum InstOutcome {
    Malformed(String),
    Invalid(String),
    Unlinkable(String),
    Uninstantiable(String),
}

impl InstOutcome {
    pub fn describe(&self) -> (r: String)
        ensures
            r@ == match self {
                InstOutcome::Malformed(m) => "malformed: "@ + m@,
                InstOutcome::Invalid(m) => "invalid: "@ + m@,
                InstOutcome::Unlinkable(m) => "unlinkable: "@ + m@,
                InstOutcome::Uninstantiable(m) => "uninstantiable: "@ + m@,
            },
    {
        match self {
            InstOutcome::Malformed(m) => join("malformed: ", m.as_str()),
            InstOutcome::Invalid(m) => join("invalid: ", m.as_str()),
            InstOutcome::Unlinkable(m) => join("unlinkable: ", m.as_str()),
            InstOutcome::Uninstantiable(m) => join("uninstantiable: ", m.as_str()),
        }
    }
}

/// The instance registered under `name`, the first such entry.
fn registered(registry: &Vec<(String, InstanceId)>, name: &String) -> (r: Option<InstanceId>)
    ensures
        r is None <==> (forall|i: int| 0 <= i < registry@.len() ==> #[trigger] registry@[i].0@ != name@),
        r matches Some(id) ==> exists|i: int| 0 <= i < registry@.len() && #[trigger] registry@[i].0@ == name@ && registry@[i].1 == id,
        r == first_named(registry@, name@),
{
    let mut i: usize = 0;
    while i < registry.len()
        invariant
            i <= registry@.len(),
            forall|j: int| 0 <= j < i ==> #[trigger] registry@[j].0@ != name@,
        decreases registry@.len() - i,
    {
        if registry[i].0 == *name {
            assert(registry@[i as int].0@ == name@);
            proof {
                lemma_first_named(registry@, name@, i as int);
            }
            return Some(registry[i].1);
        }
        i = i + 1;
    }
    proof {
        lemma_first_named(registry@, name@, registry@.len() as int);
    }
    None
}

/// What the registry resolves an import of module `module` and field
/// `field` to: the first export of that name of the first instance
/// registered under the module name.
pub open spec fn resolution(store: Store, registry: Seq<(String, InstanceId)>, module: Seq<char>, field: Seq<char>) -> Option<ExternVal> {
    match first_named(registry, module) {
        Some(inst) => if inst < store.instances@.len() {
            first_named(store.instances@[inst as int].exports@, field)
        } else {
            None
        },
        None => None,
    }
}

/// Resolves every import of `m` against the exports of the registered
/// instances (`None` for an import nothing provides).
pub fn resolve_imports(store: &Store, m: &crate::module::Module, registry: &Vec<(String, InstanceId)>) -> (r: Vec<Option<ExternVal>>)
    ensures
        r@.len() == m.imports@.len(),
        forall|i: int| 0 <= i < m.imports@.len() ==> #[trigger] r@[i] == resolution(
            *store,
            registry@,
            m.imports@[i].module@,
            m.imports@[i].name@,
        ),
{
    let mut out: Vec<Option<ExternVal>> = Vec::new();
    let mut i: usize = 0;
    while i < m.imports.len()
        invariant
            i <= m.imports@.len(),
            out@.len() == i,
            forall|j: int| 0 <= j < i ==> #[trigger] out@[j] == resolution(
                *store,
                registry@,
                m.imports@[j].module@,
                m.imports@[j].name@,
            ),
        decreases m.imports@.len() - i,
    {
        let imp = &m.imports[i];
        let ev = match registered(registry, &imp.module) {
            Some(inst) => {
                if inst < store.instances.len() {
                    store.export_val(inst, imp.name.as_str())
                } else {
                    None
                }
            },
            None => None,
        };
        out.push(ev);
        i = i + 1;
    }
    out
}

/// Decodes, validates and instantiates `bytes`, resolving imports from the
/// registry; each failure is reported with the stage it came from. The
/// start function, if any, is left for the caller to run.
pub fn build_instance(store: &mut Store, bytes: &[u8], registry: &Vec<(String, InstanceId)>) -> (r: Result<Instantiated, InstOutcome>)
    requires
        old(store).wf(),
        names_distinct(registry@),
    ensures
        final(store).wf(),
        r is Ok ==> r->Ok_0.id == old(store).instances@.len(),
        (r matches Err(InstOutcome::Malformed(_))) || (r matches Err(InstOutcome::Invalid(_))) ==> *final(store) == *old(store),
        r matches Err(InstOutcome::Unlinkable(_)) ==> final(store).funcs@ == old(store).funcs@
            && final(store).globals@ == old(store).globals@ && final(store).tables@ == old(store).tables@
            && final(store).mems@ == old(store).mems@ && final(store).instances == old(store).instances
            && final(store).host_funcs == old(store).host_funcs,
            bytes@.len() >= u32::MAX ==> r matches Err(InstOutcome::Malformed(_)),
            bytes@.len() < 8 || bytes@.take(8) != seq![0u8, 0x61, 0x73, 0x6d, 1, 0, 0, 0] ==> r matches Err(
                InstOutcome::Malformed(_),
            ),
            bytes@ == seq![0u8, 0x61, 0x73, 0x6d, 1, 0, 0, 0] ==> r is Ok,
{
    if bytes.len() >= u32::MAX as usize {
        return Err(InstOutcome::Malformed(text("module too large")));
    }
    let module = match decode(bytes) {
        Ok(m) => m,
        Err(e) => {
            return Err(InstOutcome::Malformed(e.message()));
        },
    };
    build_decoded(store, &module, registry)
}

/// Whether a decoded module is valid: it follows the module rules and every
/// function body type-checks.
pub open spec fn module_valid(m: Module) -> bool {
    module_shallow_ok(m) && forall|k: int| 0 <= k < m.codes@.len() ==> #[trigger] body_valid(m, k)
}

/// Whether the registry names each instance at most once, as a map from
/// names to instances does.
pub open spec fn names_distinct(registry: Seq<(String, InstanceId)>) -> bool {
    forall|i: int, j: int| 0 <= i < j < registry.len() ==> (#[trigger] registry[i]).0@ != (#[trigger] registry[j]).0@
}

/// The imports of `module` as the registry resolves them.
pub open spec fn resolved_imports(store: Store, registry: Seq<(String, InstanceId)>, module: Module) -> Seq<Option<ExternVal>> {
    Seq::new(
        module.imports@.len(),
        |i: int| resolution(store, registry, module.imports@[i].module@, module.imports@[i].name@),
    )
}

/// Validates a decoded module and instantiates it, resolving imports from
/// the registry: an invalid module fails at validation, and only a valid
/// one reaches linking and instantiation.
pub fn build_decoded(store: &mut Store, module: &Module, registry: &Vec<(String, InstanceId)>) -> (r: Result<Instantiated, InstOutcome>)
    requires
        old(store).wf(),
        module.codes@.len() <= module.funcs@.len(),
        names_distinct(registry@),
    ensures
        final(store).wf(),
        !(r matches Err(InstOutcome::Malformed(_))),
        (r matches Err(InstOutcome::Invalid(_))) <==> !module_valid(*module),
        r matches Err(InstOutcome::Invalid(_)) ==> *final(store) == *old(store),
        r is Ok ==> r->Ok_0.id == old(store).instances@.len() && final(store).instances@.len() == old(store).instances@.len() + 1,
        r matches Err(InstOutcome::Unlinkable(_)) ==> final(store).funcs@ == old(store).funcs@
            && final(store).globals@ == old(store).globals@ && final(store).tables@ == old(store).tables@
            && final(store).mems@ == old(store).mems@ && final(store).instances == old(store).instances
            && final(store).host_funcs == old(store).host_funcs,
        r is Ok ==> forall|k: int| 0 <= k < module.imports@.len() ==> #[trigger] import_resolved(
            *old(store),
            *module,
            resolved_imports(*old(store), registry@, *module),
            k,
        ),
        module_valid(*module) ==> forall|k: int| #[trigger] import_missing(*old(store), *module, resolved_imports(*old(store), registry@, *module), k)
            ==> (r matches Err(InstOutcome::Unlinkable(m)) && m@ == "unknown import "@ + module.imports@[k].module@ + "."@
            + module.imports@[k].name@),
        module_valid(*module) && (exists|k: int| 0 <= k < module.imports@.len() && !#[trigger] import_resolved(
            *old(store),
            *module,
            resolved_imports(*old(store), registry@, *module),
            k,
        )) ==> r matches Err(InstOutcome::Unlinkable(_)),
        module_valid(*module) && module_is_empty(*module) ==> r is Ok,
        module_valid(*module) && simple_module(*module) && all_imports_resolved(
            *old(store),
            *module,
            resolved_imports(*old(store), registry@, *module),
        ) ==> r is Ok || (r matches Err(InstOutcome::Unlinkable(m))
            && (m@ == "cannot allocate table"@ || m@ == "cannot allocate memory"@)),
{
    match validate(module) {
        Ok(()) => {},
        Err(e) => {
            return Err(InstOutcome::Invalid(e.message()));
        },
    }
    let imports = resolve_imports(store, module, registry);
    assert(imports@ =~= resolved_imports(*store, registry@, *module));
    match store.instantiate(module, &imports) {
        Ok(inst) => Ok(inst),
        Err(crate::error::InstError::Link(m)) => Err(InstOutcome::Unlinkable(m)),
        Err(crate::error::InstError::Trap(t)) => Err(InstOutcome::Uninstantiable(t.msg)),
    }
}

// ---- numbers ----

/// Why a decimal number did not parse (the kinds `str::parse` reports).
#[derive(Clone, Copy, Debug, PartialEq, Eq, Structural)]
pub enum NumErr {
    Empty,
    InvalidDigit,
    Overflow,
}

pub open spec fn is_digit(c: char) -> bool {
    '0' <= c && c <= '9'
}

pub open spec fn digit_value(c: char) -> nat {
    (c as int - '0' as int) as nat
}

/// Scanning the digits of `d` from position `i` with the value `acc` read
/// so far: the first non-digit, or the first step past `limit`, ends it.
pub open spec fn scan_digits(d: Seq<char>, i: int, acc: nat, limit: nat) -> Result<nat, NumErr>
    decreases d.len() - i,
{
    if i >= d.len() {
        Ok(acc)
    } else if !is_digit(d[i]) {
        Err(NumErr::InvalidDigit)
    } else if acc * 10 + digit_value(d[i]) > limit {
        Err(NumErr::Overflow)
    } else {
        scan_digits(d, i + 1, acc * 10 + digit_value(d[i]), limit)
    }
}

/// The outcome of parsing `s` as an unsigned decimal no larger than `limit`
/// (an optional leading `+`, then at least one digit).
pub open spec fn parse_dec(s: Seq<char>, limit: nat) -> Result<nat, NumErr> {
    if s.len() == 0 {
        Err(NumErr::Empty)
    } else if s[0] == '+' {
        if s.len() == 1 { Err(NumErr::InvalidDigit) } else { scan_digits(s, 1, 0, limit) }
    } else {
        scan_digits(s, 0, 0, limit)
    }
}

/// Parses `s` as an unsigned decimal no larger than `limit`.
pub fn parse_dec_exec(s: &str, limit: u64) -> (r: Result<u64, NumErr>)
    ensures
        r matches Ok(v) ==> parse_dec(s@, limit as nat) == Ok::<nat, NumErr>(v as nat) && v <= limit,
        r matches Err(e) ==> parse_dec(s@, limit as nat) == Err::<nat, NumErr>(e),
{
    let n = s.unicode_len();
    if n == 0 {
        return Err(NumErr::Empty);
    }
    let mut i: usize = 0;
    if s.get_char(0) == '+' {
        if n == 1 {
            return Err(NumErr::InvalidDigit);
        }
        i = 1;
    }
    let ghost start = i as int;
    let mut acc: u64 = 0;
    assert(parse_dec(s@, limit as nat) == scan_digits(s@, start, 0, limit as nat));
    while i < n
        invariant
            n == s@.len(),
            parse_dec(s@, limit as nat) == scan_digits(s@, start, 0, limit as nat),
            start <= i <= n,
            acc <= limit,
            scan_digits(s@, start, 0, limit as nat) == scan_digits(s@, i as int, acc as nat, limit as nat),
        decreases n - i,
    {
        let c = s.get_char(i);
        assert(s@[i as int] == c);
        if !('0' <= c && c <= '9') {
            assert(!is_digit(s@[i as int]));
            return Err(NumErr::InvalidDigit);
        }
        let d = (c as u32 - '0' as u32) as u64;
        assert(d == digit_value(c));
        if d > limit {
            return Err(NumErr::Overflow);
        }
        let q = (limit - d) / 10;
        proof {
            vstd::arithmetic::div_mod::lemma_fundamental_div_mod((limit - d) as int, 10);
        }
        if acc > q {
            return Err(NumErr::Overflow);
        }
        acc = acc * 10 + d;
        i = i + 1;
    }
    Ok(acc)
}


/// The text `format!("{:?}", s)` gives for a string `s` (its `Debug` form).
pub uninterp spec fn debug_text(s: Seq<char>) -> Seq<char>;

/// Trusted: `format!("{s:?}")` writes `s` between double quotes, with
/// quotes, backslashes and control characters escaped. The result is named
/// by `debug_text` of `s`; of it, only the quotes around it are stated
/// here, not the escaping.
#[verifier::external_body]
pub(crate) fn quoted(s: &str) -> (r: String)
    ensures
        r@ == debug_text(s@),
        r@.len() >= 2,
        r@[0] == '"',
        r@.last() == '"',
{
    format!("{s:?}")
}

/// The text `str::parse` gives each error kind.
pub open spec fn num_err_text(e: NumErr) -> Seq<char> {
    match e {
        NumErr::Empty => "cannot parse integer from empty string"@,
        NumErr::InvalidDigit => "invalid digit found in string"@,
        NumErr::Overflow => "number too large to fit in target type"@,
    }
}

fn num_err_str(e: NumErr) -> (r: &'static str)
    ensures
        r@ == num_err_text(e),
{
    match e {
        NumErr::Empty => "cannot parse integer from empty string",
        NumErr::InvalidDigit => "invalid digit found in string",
        NumErr::Overflow => "number too large to fit in target type",
    }
}

/// The message for `s` not parsing as a `kind`: `bad <kind> "<s>": <why>`.
pub open spec fn bad_number_text(kind: Seq<char>, s: Seq<char>, e: NumErr) -> Seq<char> {
    "bad "@ + kind + " "@ + debug_text(s) + ": "@ + num_err_text(e)
}

/// The decimal number `s` up to `max`, or the message for it as a `kind`.
pub open spec fn number(s: Seq<char>, kind: Seq<char>, max: nat) -> Result<nat, Seq<char>> {
    match parse_dec(s, max) {
        Ok(n) => Ok(n),
        Err(e) => Err(bad_number_text(kind, s, e)),
    }
}

/// `bad <kind> "<s>": <why>`.
fn bad_number(kind: &str, s: &str, e: NumErr) -> (r: String)
    ensures
        r@ == bad_number_text(kind@, s@, e),
{
    let q = quoted(s);
    let a = join3("bad ", kind, " ");
    let b = join3(a.as_str(), q.as_str(), ": ");
    join(b.as_str(), num_err_str(e))
}

/// Parses a decimal `u32`, as `str::parse::<u32>` does.
pub fn parse_u32(s: &str) -> (r: Result<u32, String>)
    ensures
        r matches Ok(v) ==> parse_dec(s@, u32::MAX as nat) == Ok::<nat, NumErr>(v as nat),
        r is Err <==> parse_dec(s@, u32::MAX as nat) is Err,
        r matches Err(m) ==> number(s@, "u32"@, u32::MAX as nat) == Err::<nat, Seq<char>>(m@),
{
    match parse_dec_exec(s, u32::MAX as u64) {
        Ok(v) => Ok(v as u32),
        Err(e) => {
            Err(bad_number("u32", s, e))
        },
    }
}

/// Parses a decimal `u64`, as `str::parse::<u64>` does.
pub fn parse_u64(s: &str) -> (r: Result<u64, String>)
    ensures
        r matches Ok(v) ==> parse_dec(s@, u64::MAX as nat) == Ok::<nat, NumErr>(v as nat),
        r is Err <==> parse_dec(s@, u64::MAX as nat) is Err,
        r matches Err(m) ==> number(s@, "u64"@, u64::MAX as nat) == Err::<nat, Seq<char>>(m@),
{
    match parse_dec_exec(s, u64::MAX) {
        Ok(v) => Ok(v),
        Err(e) => {
            Err(bad_number("u64", s, e))
        },
    }
}

/// Whether two strings hold the same characters.
pub(crate) fn same_text(a: &str, b: &str) -> (r: bool)
    ensures
        r == (a@ == b@),
{
    let r = starts_with(a, b) && a.unicode_len() == b.unicode_len();
    proof {
        if r {
            assert(a@ =~= b@);
        }
    }
    r
}

/// A canonical f32 NaN: any sign, quiet bit only.
pub open spec fn canonical_nan32(bits: u32) -> bool {
    bits & 0x7fff_ffff == 0x7fc0_0000
}

/// An arithmetic f32 NaN: any sign and payload, quiet bit set.
pub open spec fn arithmetic_nan32(bits: u32) -> bool {
    bits & 0x7fc0_0000 == 0x7fc0_0000
}

pub open spec fn canonical_nan64(bits: u64) -> bool {
    bits & 0x7fff_ffff_ffff_ffff == 0x7ff8_0000_0000_0000
}

pub open spec fn arithmetic_nan64(bits: u64) -> bool {
    bits & 0x7ff8_0000_0000_0000 == 0x7ff8_0000_0000_0000
}

/// How an expected f32 string judges the bits `b`: a NaN pattern, or
/// exact bits written in decimal (else the message for the number).
pub open spec fn nan32_verdict(b: u32, s: Seq<char>) -> Result<bool, Seq<char>> {
    if s == "nan:canonical"@ {
        Ok(canonical_nan32(b))
    } else if s == "nan:arithmetic"@ {
        Ok(arithmetic_nan32(b))
    } else {
        match number(s, "u32"@, u32::MAX as nat) {
            Ok(n) => Ok(b == n),
            Err(m) => Err(m),
        }
    }
}

/// Matches f32 bits against an expectation: a NaN pattern or exact bits.
pub fn match_f32(bits: u32, exp: &str) -> (r: Result<bool, String>)
    ensures
        r matches Ok(b) ==> nan32_verdict(bits, exp@) == Ok::<bool, Seq<char>>(b),
        r matches Err(m) ==> nan32_verdict(bits, exp@) == Err::<bool, Seq<char>>(m@),
{
    proof {
        reveal_strlit("nan:canonical");
        reveal_strlit("nan:arithmetic");
    }
    if same_text(exp, "nan:canonical") {
        Ok(bits & 0x7fff_ffff == 0x7fc0_0000)
    } else if same_text(exp, "nan:arithmetic") {
        Ok(bits & 0x7fc0_0000 == 0x7fc0_0000)
    } else {
        match parse_u32(exp) {
            Ok(v) => Ok(bits == v),
            Err(e) => Err(e),
        }
    }
}

/// How an expected f64 string judges the bits `b`: a NaN pattern, or
/// exact bits written in decimal (else the message for the number).
pub open spec fn nan64_verdict(b: u64, s: Seq<char>) -> Result<bool, Seq<char>> {
    if s == "nan:canonical"@ {
        Ok(canonical_nan64(b))
    } else if s == "nan:arithmetic"@ {
        Ok(arithmetic_nan64(b))
    } else {
        match number(s, "u64"@, u64::MAX as nat) {
            Ok(n) => Ok(b == n),
            Err(m) => Err(m),
        }
    }
}

/// Matches f64 bits against an expectation: a NaN pattern or exact bits.
pub fn match_f64(bits: u64, exp: &str) -> (r: Result<bool, String>)
    ensures
        r matches Ok(b) ==> nan64_verdict(bits, exp@) == Ok::<bool, Seq<char>>(b),
        r matches Err(m) ==> nan64_verdict(bits, exp@) == Err::<bool, Seq<char>>(m@),
{
    proof {
        reveal_strlit("nan:canonical");
        reveal_strlit("nan:arithmetic");
    }
    if same_text(exp, "nan:canonical") {
        Ok(bits & 0x7fff_ffff_ffff_ffff == 0x7ff8_0000_0000_0000)
    } else if same_text(exp, "nan:arithmetic") {
        Ok(bits & 0x7ff8_0000_0000_0000 == 0x7ff8_0000_0000_0000)
    } else {
        match parse_u64(exp) {
            Ok(v) => Ok(bits == v),
            Err(e) => Err(e),
        }
    }
}

/// Every canonical NaN is an arithmetic NaN.
pub proof fn lemma_canonical_is_arithmetic32(bits: u32)
    ensures
        canonical_nan32(bits) ==> arithmetic_nan32(bits),
{
    assert(bits & 0x7fff_ffff == 0x7fc0_0000 ==> bits & 0x7fc0_0000 == 0x7fc0_0000) by (bit_vector);
}

/// Every canonical NaN is an arithmetic NaN.
pub proof fn lemma_canonical_is_arithmetic64(bits: u64)
    ensures
        canonical_nan64(bits) ==> arithmetic_nan64(bits),
{
    assert(bits & 0x7fff_ffff_ffff_ffff == 0x7ff8_0000_0000_0000 ==> bits & 0x7ff8_0000_0000_0000 == 0x7ff8_0000_0000_0000)
        by (bit_vector);
}

} // verus!
