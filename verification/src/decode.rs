//! WebAssembly 2.0 binary format decoder. Everything the binary grammar
//! rejects fails here (malformed); what it accepts but the typing rules
//! reject fails later in validation (invalid).
use vstd::prelude::*;
use vstd::arithmetic::power2::*;
use vstd::utf8::*;
use crate::bytes::{copy_bytes, le_bytes, le_value};
use crate::error::DecodeError;
use crate::leb::{
    LebError, LebScan, leb_scan, leb_value, lemma_scan_fail_len, lemma_sleb_fits, lemma_uleb_fits,
    max_len, read_leb, scan_error, sleb_value,
};
use crate::module::{
    BlockType, Code, ConstExpr, Data, DataMode, Elem, ElemMode, Export, ExportDesc, Global, Import,
    ImportDesc, Instr, LoadOp, Module, NumOp, SimdOp, StoreOp, module_is_empty,
};
use crate::opcodes::{load_op, store_op, mem_op_has_lane, plain_numop, sat_numop, simd_lane_op, simd_mem_op, simd_plain};
use crate::text::{hex_lit, text, with_dec, with_hex};
use crate::types::{FuncType, GlobalType, Limits, MemType, RefType, TableType, ValType};

verus! {

/// The message of a read past the end of the input.
pub open spec fn eof_msg() -> Seq<char> {
    "unexpected end of section or function"@
}

/// How a LEB128 read that failed is reported.
pub open spec fn leb_error_msg(e: LebError) -> Seq<char> {
    match e {
        LebError::Eof => eof_msg(),
        LebError::TooLong => "integer representation too long"@,
        LebError::TooLarge => "integer too large"@,
    }
}

/// Whether an instruction opens or closes a structured block.
pub open spec fn opens_or_closes(i: Instr) -> bool {
    i is Block || i is Loop || i is If || i is Else || i is End
}

/// The value type with binary encoding `b`, if any.
pub open spec fn valtype_code(b: u8) -> Option<ValType> {
    if b == 0x7f {
        Some(ValType::I32)
    } else if b == 0x7e {
        Some(ValType::I64)
    } else if b == 0x7d {
        Some(ValType::F32)
    } else if b == 0x7c {
        Some(ValType::F64)
    } else if b == 0x7b {
        Some(ValType::V128)
    } else if b == 0x70 {
        Some(ValType::FuncRef)
    } else if b == 0x6f {
        Some(ValType::ExternRef)
    } else {
        None
    }
}

/// The reference type with binary encoding `b`, if any.
pub open spec fn reftype_code(b: u8) -> Option<RefType> {
    if b == 0x70 {
        Some(RefType::FuncRef)
    } else if b == 0x6f {
        Some(RefType::ExternRef)
    } else {
        None
    }
}

/// The outcome of reading a `bits`-bit LEB128 integer at `pos`: its
/// (unsigned or signed) value and its length.
pub open spec fn leb_at(b: Seq<u8>, pos: int, bits: nat, signed: bool) -> Option<(int, int)> {
    let s = b.subrange(pos, b.len() as int);
    match leb_scan(s, bits, signed, 0) {
        LebScan::Done(n) => Some(
            (
                if signed {
                    sleb_value(s.take(n as int))
                } else {
                    leb_value(s.take(n as int)) as int
                },
                n as int,
            ),
        ),
        _ => None,
    }
}

/// Where a failing LEB128 read at `pos` is reported, and why.
pub open spec fn leb_fail(b: Seq<u8>, pos: int, bits: nat, signed: bool) -> (int, LebError) {
    let scan = leb_scan(b.subrange(pos, b.len() as int), bits, signed, 0);
    (
        if scan is Eof {
            b.len() as int
        } else {
            pos + max_len(bits)
        },
        scan_error(scan),
    )
}

/// The signed value of a 32-bit pattern.
pub open spec fn signed_of_u32(v: u32) -> int {
    if v >= 0x8000_0000 {
        v - 0x1_0000_0000
    } else {
        v as int
    }
}

/// The signed value of a 64-bit pattern.
pub open spec fn signed_of_u64(v: u64) -> int {
    if v >= 0x8000_0000_0000_0000 {
        v - 0x1_0000_0000_0000_0000
    } else {
        v as int
    }
}

/// A name at `pos`: a `u32` byte length, then that many bytes of valid
/// UTF-8; its characters and total length.
pub open spec fn name_at(b: Seq<u8>, pos: int) -> Option<(Seq<char>, int)> {
    let l = leb_at(b, pos, 32, false);
    if l is None {
        None
    } else {
        let len = l.unwrap().0;
        let start = pos + l.unwrap().1;
        if start + len <= b.len() && valid_utf8(b.subrange(start, start + len)) {
            Some((decode_utf8(b.subrange(start, start + len)), l.unwrap().1 + len))
        } else {
            None
        }
    }
}

/// Limits at `pos`: flag `0` then a minimum, or flag `1` then a minimum
/// and a maximum (all `u32` LEB128); the limits and their length.
pub open spec fn limits_at(b: Seq<u8>, pos: int) -> Option<(Limits, int)> {
    let l1 = leb_at(b, pos + 1, 32, false);
    if pos >= b.len() || l1 is None {
        None
    } else if b[pos] == 0 {
        Some((Limits { min: l1.unwrap().0 as u32, max: None }, 1 + l1.unwrap().1))
    } else if b[pos] == 1 {
        let l2 = leb_at(b, pos + 1 + l1.unwrap().1, 32, false);
        if l2 is None {
            None
        } else {
            Some(
                (
                    Limits { min: l1.unwrap().0 as u32, max: Some(l2.unwrap().0 as u32) },
                    1 + l1.unwrap().1 + l2.unwrap().1,
                ),
            )
        }
    } else {
        None
    }
}

/// Limits with flag `1` hold the first LEB128 value read after the flag as
/// the minimum and the next one as the maximum, and span the flag and both
/// values.
pub proof fn lemma_limits_with_max(b: Seq<u8>, pos: int, min: int, n1: int, max: int, n2: int)
    requires
        0 <= pos < b.len(),
        b[pos] == 1,
        leb_at(b, pos + 1, 32, false) == Some((min, n1)),
        leb_at(b, pos + 1 + n1, 32, false) == Some((max, n2)),
    ensures
        limits_at(b, pos) == Some((Limits { min: min as u32, max: Some(max as u32) }, 1 + n1 + n2)),
{
}

/// Limits with flag `0` hold the LEB128 value after the flag as the
/// minimum and no maximum.
pub proof fn lemma_limits_without_max(b: Seq<u8>, pos: int, min: int, n1: int)
    requires
        0 <= pos < b.len(),
        b[pos] == 0,
        leb_at(b, pos + 1, 32, false) == Some((min, n1)),
    ensures
        limits_at(b, pos) == Some((Limits { min: min as u32, max: None }, 1 + n1)),
{
}

/// Encoding limits with one-byte values and decoding them gives them back:
/// `[1, min, max]` is `{min, Some(max)}` and `[0, min]` is `{min, None}`.
pub proof fn lemma_limits_roundtrip(min: u8, max: u8)
    requires
        min < 0x80,
        max < 0x80,
    ensures
        limits_at(seq![1u8, min, max], 0int) == Some((Limits { min: min as u32, max: Some(max as u32) }, 3int)),
        limits_at(seq![0u8, min], 0int) == Some((Limits { min: min as u32, max: None }, 2int)),
{
    let b = seq![1u8, min, max];
    lemma_one_byte_leb(b, 1);
    lemma_one_byte_leb(b, 2);
    let c = seq![0u8, min];
    lemma_one_byte_leb(c, 1);
}

/// A byte below `0x80` is a complete unsigned 32-bit LEB128 value.
proof fn lemma_one_byte_leb(b: Seq<u8>, pos: int)
    requires
        0 <= pos < b.len(),
        b[pos] < 0x80,
    ensures
        leb_at(b, pos, 32, false) == Some((b[pos] as int, 1int)),
{
    let s = b.subrange(pos, b.len() as int);
    assert(s[0] == b[pos]);
    assert(!crate::leb::continues(s[0]));
    assert(leb_scan(s, 32, false, 0) == LebScan::Done(1));
    assert(s.take(1) =~= seq![b[pos]]);
    lemma2_to64();
    assert(seq![b[pos]].drop_last() =~= Seq::<u8>::empty());
    let one = seq![b[pos]];
    assert(one.last() == b[pos]);
    assert(leb_value(one.drop_last()) == 0);
    assert(pow2(0) == 1);
    assert(crate::leb::digit(b[pos]) == b[pos]);
    assert(leb_value(one) == leb_value(one.drop_last()) + crate::leb::digit(one.last()) * pow2(0));
    assert(leb_value(one) == b[pos]);
}

/// A block type at `pos`: `0x40` (empty), a value-type byte, or a
/// non-negative 33-bit signed LEB128 type index; the block type and its length.
pub open spec fn blocktype_at(b: Seq<u8>, pos: int) -> Option<(BlockType, int)> {
    let l = leb_at(b, pos, 33, true);
    if pos < b.len() && b[pos] == 0x40 {
        Some((BlockType::Empty, 1int))
    } else if pos < b.len() && valtype_code(b[pos]) is Some {
        Some((BlockType::Val(valtype_code(b[pos]).unwrap()), 1int))
    } else if l is Some && l.unwrap().0 >= 0 {
        Some((BlockType::Type(l.unwrap().0 as u32), l.unwrap().1))
    } else {
        None
    }
}

/// A memory immediate at `pos`: alignment exponent (below 32) and offset,
/// both `u32` LEB128; the pair and its length.
pub open spec fn memarg_at(b: Seq<u8>, pos: int) -> Option<(u32, u32, int)> {
    let l1 = leb_at(b, pos, 32, false);
    if l1 is None || l1.unwrap().0 >= 32 {
        None
    } else {
        let l2 = leb_at(b, pos + l1.unwrap().1, 32, false);
        if l2 is None {
            None
        } else {
            Some((l1.unwrap().0 as u32, l2.unwrap().0 as u32, l1.unwrap().1 + l2.unwrap().1))
        }
    }
}

/// The characters of `bytes` when they are valid UTF-8.
///
/// Trusted: `std::str::from_utf8` succeeds exactly on valid UTF-8, and the
/// string then holds the decoded characters.
#[verifier::external_body]
fn utf8_text(bytes: &[u8]) -> (r: Option<String>)
    ensures
        r is Some <==> valid_utf8(bytes@),
        r matches Some(s) ==> s@ == decode_utf8(bytes@),
{
    match std::str::from_utf8(bytes) {
        Ok(s) => Some(s.to_string()),
        Err(_) => None,
    }
}

/// Decodes a binary module.
pub fn decode(bytes: &[u8]) -> (r: Result<Module, DecodeError>)
    requires
        bytes.len() < u32::MAX,
    ensures
        module_header_outcome(bytes@, r),
        r matches Ok(m) ==> m.funcs@.len() == m.codes@.len(),
        r is Ok ==> sections_ordered(bytes@, 8, 0),
        r matches Ok(m) ==> forall|k: int| 0 <= k < m.codes@.len() ==> targets_resolved(#[trigger] m.codes@[k].body@),
        r matches Ok(m) ==> (bytes@.len() == 8 ==> module_is_empty(m)),
        r matches Ok(m) ==> (section_lead(bytes@, 8, 12) matches Some(n) ==> m.datas@.len() == n),
        r matches Ok(m) ==> (section_found(bytes@, 8, 1) ==> section_lead(bytes@, 8, 1) == Some(m.types@.len())),
        r matches Ok(m) ==> (!section_found(bytes@, 8, 1) ==> m.types@.len() == 0),
        r matches Ok(m) ==> forall|k: int| 0 <= k < m.codes@.len() ==> (#[trigger] m.codes@[k]).locals@.len() <= MAX_LOCALS,
        r matches Err(e) ==> e.offset <= bytes.len(),
        bytes@.len() >= 8 && bytes@.take(8) == seq![0u8, 0x61, 0x73, 0x6d, 1, 0, 0, 0] && custom_sections_only(bytes@, 8)
            ==> r is Ok,
{
    let mut d = Decoder::new(bytes);
    d.module()
}

/// Whether, from `pos` on, `b` holds nothing but custom sections, each
/// framed within `b` and named by well-formed UTF-8 that fits its section.
pub open spec fn custom_sections_only(b: Seq<u8>, pos: int) -> bool
    decreases b.len() - pos,
{
    if pos < 0 || pos >= b.len() {
        pos == b.len()
    } else {
        match leb_at(b, pos + 1, 32, false) {
            Some((size, l)) => {
                let start = pos + 1 + l;
                &&& b[pos] == 0
                &&& l >= 1 && size >= 0 && start + size <= b.len()
                &&& leb_at(b, start, 32, false) matches Some((len, l2))
                &&& len >= 0 && start + l2 + len <= start + size
                &&& valid_utf8(b.subrange(start + l2, start + l2 + len))
                &&& custom_sections_only(b, start + size)
            },
            None => false,
        }
    }
}

/// The ordering rank of a section id: custom `0` anywhere, then `1..=9`,
/// data count (`12`), code (`10`), data (`11`).
pub open spec fn section_rank_of(id: u8) -> u8 {
    if id == 12 {
        10
    } else if id == 10 {
        11
    } else if id == 11 {
        12
    } else {
        id
    }
}

/// Once the header is complete and more bytes follow, any failure
/// agrees with the header rules.
proof fn lemma_header_errors(bytes: Seq<u8>)
    requires
        bytes.len() >= 8,
        bytes.take(8) == seq![0u8, 0x61, 0x73, 0x6d, 1, 0, 0, 0],
    ensures
        bytes.take(4) == seq![0u8, 0x61, 0x73, 0x6d],
        bytes.subrange(4, 8) == seq![1u8, 0, 0, 0],
        bytes.len() > 8 ==> forall|r: Result<Module, DecodeError>|
            r is Err ==> #[trigger] module_header_outcome(bytes, r),
{
    assert(bytes.take(4) =~= bytes.take(8).take(4));
    assert(bytes.subrange(4, 8) =~= bytes.take(8).subrange(4, 8));
    if bytes.len() > 8 {
        assert(bytes != seq![0u8, 0x61, 0x73, 0x6d, 1, 0, 0, 0]) by {
            assert(seq![0u8, 0x61, 0x73, 0x6d, 1, 0, 0, 0].len() == 8);
        }
        assert forall|r: Result<Module, DecodeError>| r is Err implies #[trigger] module_header_outcome(bytes, r) by {
            assert(bytes.take(4) == seq![0u8, 0x61, 0x73, 0x6d]);
            assert(bytes.subrange(4, 8) == seq![1u8, 0, 0, 0]);
            assert(bytes.len() >= 8);
        }
    }
}

/// Whether the sections from `pos` on are framed and in order: each is the
/// id of a known section, a `u32` LEB128 size and that many bytes, and the
/// non-custom ones come in strictly increasing rank, above `last`.
pub open spec fn sections_ordered(b: Seq<u8>, pos: int, last: u8) -> bool
    decreases b.len() - pos,
{
    if pos < 0 || pos >= b.len() {
        true
    } else {
        let id = b[pos];
        match leb_at(b, pos + 1, 32, false) {
            Some((size, l)) => {
                let end = pos + 1 + l + size;
                &&& id <= 12
                &&& l >= 0 && size >= 0
                &&& end <= b.len()
                &&& id != 0 ==> section_rank_of(id) > last
                &&& sections_ordered(
                    b,
                    end,
                    if id != 0 {
                        section_rank_of(id)
                    } else {
                        last
                    },
                )
            },
            None => false,
        }
    }
}

/// Whether the structured instruction at `k` of a decoded body has its
/// targets resolved: a block, loop or if ends one past an `end` after it,
/// an if's else arm starts one past an `else` inside it (the if has no
/// else arm where the two targets agree), and an `else` ends one past an
/// `end` after it.
pub open spec fn target_ok(v: Seq<Instr>, k: int) -> bool {
    match v[k] {
        Instr::Block { end, .. } => k < end <= v.len() && v[end - 1] is End,
        Instr::Loop { end, .. } => k < end <= v.len() && v[end - 1] is End,
        Instr::If { else_, end, .. } => k < end <= v.len() && v[end - 1] is End && k < else_ <= end
            && (else_ < end ==> v[else_ - 1] is Else),
        Instr::Else { end } => k < end <= v.len() && v[end - 1] is End,
        _ => true,
    }
}

/// Whether every structured instruction of a decoded body has its targets
/// resolved, to the `end` and `else` that match it.
pub open spec fn targets_resolved(v: Seq<Instr>) -> bool {
    &&& forall|k: int| 0 <= k < v.len() ==> target_ok(v, k)
    &&& properly_nested(v)
}

/// Whether an instruction opens a block, loop or if.
pub open spec fn is_opener(i: Instr) -> bool {
    i is Block || i is Loop || i is If
}

/// One past the index of the `end` of a block, loop or if.
pub open spec fn block_end(i: Instr) -> int {
    match i {
        Instr::Block { end, .. } => end as int,
        Instr::Loop { end, .. } => end as int,
        Instr::If { end, .. } => end as int,
        _ => 0,
    }
}

/// The else arm of the if at `k`, where it has one: the `else` that opens
/// it ends where the if ends, and every block opened in the first arm ends
/// before that `else`.
pub open spec fn else_arm_ok(v: Seq<Instr>, k: int) -> bool {
    match v[k] {
        Instr::If { else_, end, .. } => else_ < end ==> {
            &&& v[else_ - 1] == (Instr::Else { end })
            &&& forall|k2: int| k < k2 < else_ - 1 && is_opener(#[trigger] v[k2]) ==> block_end(v[k2]) <= else_ - 1
        },
        _ => true,
    }
}

/// Whether the blocks of a decoded body nest: two blocks are either
/// disjoint or one lies inside the other, every `end` but the last closes
/// a block opened before it, and an if's arms are split by its own `else`.
/// So each target is the `end` (or `else`) that matches its opener, and an
/// `end` at the outermost level comes only last.
pub open spec fn properly_nested(v: Seq<Instr>) -> bool {
    &&& forall|k1: int, k2: int|
        #![trigger is_opener(v[k1]), is_opener(v[k2])]
        0 <= k1 < k2 < v.len() && is_opener(v[k1]) && is_opener(v[k2]) ==> block_end(v[k2]) < block_end(v[k1])
            || k2 >= block_end(v[k1])
    &&& forall|m: int| 0 <= m < v.len() - 1 && (#[trigger] v[m]) is End ==> exists|k: int|
        0 <= k < m && is_opener(#[trigger] v[k]) && block_end(v[k]) == m + 1
    &&& forall|k: int| 0 <= k < v.len() ==> #[trigger] else_arm_ok(v, k)
}

/// An opener at `k` that is no longer open.
spec fn resolved_opener(v: Seq<Instr>, o: Seq<usize>, k: int) -> bool {
    0 <= k < v.len() && is_opener(v[k]) && !is_open(o, k)
}

/// The first arm of the open if at `o[j]`, once its `else` is seen: every
/// block opened in it has ended before that `else`.
spec fn open_arm_ok(v: Seq<Instr>, o: Seq<usize>, j: int) -> bool {
    match v[o[j] as int] {
        Instr::If { else_, .. } => else_ != u32::MAX ==> forall|k2: int|
            o[j] < k2 < else_ - 1 && is_opener(#[trigger] v[k2]) ==> block_end(v[k2]) <= else_ - 1,
        _ => true,
    }
}

/// The nesting that decoding a body maintains, over the blocks closed so
/// far and those still open.
spec fn nest_inv(v: Seq<Instr>, o: Seq<usize>) -> bool {
    &&& forall|k1: int, k2: int|
        k1 < k2 && #[trigger] resolved_opener(v, o, k1) && #[trigger] resolved_opener(v, o, k2) ==> block_end(
            v[k2],
        ) < block_end(v[k1]) || k2 >= block_end(v[k1])
    &&& forall|k1: int, j: int|
        0 <= j < o.len() && #[trigger] resolved_opener(v, o, k1) && k1 < #[trigger] o[j] ==> o[j] >= block_end(v[k1])
    &&& forall|m: int| 0 <= m < v.len() && (#[trigger] v[m]) is End ==> exists|k: int|
        k < m && #[trigger] resolved_opener(v, o, k) && block_end(v[k]) == m + 1
    &&& forall|k: int| #[trigger] resolved_opener(v, o, k) ==> else_arm_ok(v, k)
    &&& forall|j: int| 0 <= j < o.len() ==> #[trigger] open_arm_ok(v, o, j)
}

/// Whether `k` is one of the open block indices `o`.
spec fn is_open(o: Seq<usize>, k: int) -> bool {
    exists|j: int| 0 <= j < o.len() && o[j] == k
}

/// Whether instruction `k` is an `else` whose `end` is not known yet.
spec fn pending_else(v: Seq<Instr>, k: int) -> bool {
    v[k] matches Instr::Else { end } && end == u32::MAX
}

/// Whether an instruction opens a block whose `end` is not known yet.
spec fn unresolved(i: Instr) -> bool {
    ||| i matches Instr::Block { end, .. } && end == u32::MAX
    ||| i matches Instr::Loop { end, .. } && end == u32::MAX
    ||| i matches Instr::If { end, .. } && end == u32::MAX
}

/// The pending else arm of the open `if` at `o[j]`, if it has one yet.
spec fn open_else_ok(v: Seq<Instr>, o: Seq<usize>, j: int) -> bool {
    match v[o[j] as int] {
        Instr::If { else_, .. } => else_ != u32::MAX ==> {
            &&& o[j] < else_ - 1 < v.len()
            &&& pending_else(v, else_ - 1)
            &&& forall|j2: int| j < j2 < o.len() ==> else_ - 1 < #[trigger] o[j2]
        },
        _ => true,
    }
}

/// What decoding a body maintains: the open blocks, innermost last, are
/// unresolved; an open `if` with an else arm owns a pending `else`;
/// every other structured instruction is resolved.
spec fn structure_inv(v: Seq<Instr>, o: Seq<usize>) -> bool {
    &&& forall|j: int| 0 <= j < o.len() ==> #[trigger] o[j] < v.len()
    &&& forall|i: int, j: int| 0 <= i < j < o.len() ==> #[trigger] o[i] < #[trigger] o[j]
    &&& forall|j: int| 0 <= j < o.len() ==> unresolved(#[trigger] v[o[j] as int])
    &&& forall|j: int| 0 <= j < o.len() ==> #[trigger] open_else_ok(v, o, j)
    &&& forall|k: int| 0 <= k < v.len() && !is_open(o, k) && !pending_else(v, k) ==> #[trigger] target_ok(v, k)
    &&& forall|k: int| 0 <= k < v.len() && #[trigger] pending_else(v, k) ==> exists|j: int|
        0 <= j < o.len() && (#[trigger] v[o[j] as int] matches Instr::If { else_, .. } && else_ == k + 1)
}

/// A resolved target stays resolved when the body grows.
proof fn lemma_target_push(v: Seq<Instr>, x: Instr, k: int)
    requires
        0 <= k < v.len(),
        target_ok(v, k),
    ensures
        target_ok(v.push(x), k),
{
    let w = v.push(x);
    match v[k] {
        Instr::Block { end, .. } => assert(w[end - 1] == v[end - 1]),
        Instr::Loop { end, .. } => assert(w[end - 1] == v[end - 1]),
        Instr::If { else_, end, .. } => {
            assert(w[end - 1] == v[end - 1]);
            if else_ < end {
                assert(w[else_ - 1] == v[else_ - 1]);
            }
        },
        Instr::Else { end } => assert(w[end - 1] == v[end - 1]),
        _ => {},
    }
}

/// Pushing an instruction that opens no block keeps the structure.
proof fn lemma_push_plain(v: Seq<Instr>, o: Seq<usize>, x: Instr)
    requires
        structure_inv(v, o),
        !(x is Block) && !(x is Loop) && !(x is If) && !(x is Else),
    ensures
        structure_inv(v.push(x), o),
{
    let w = v.push(x);
    let n = v.len() as int;
    assert forall|j: int| 0 <= j < o.len() implies unresolved(#[trigger] w[o[j] as int]) by {
        assert(w[o[j] as int] == v[o[j] as int]);
    }
    assert forall|j: int| 0 <= j < o.len() implies #[trigger] open_else_ok(w, o, j) by {
        assert(open_else_ok(v, o, j));
        assert(w[o[j] as int] == v[o[j] as int]);
        if let Instr::If { else_, .. } = v[o[j] as int] {
            if else_ != u32::MAX {
                assert(w[else_ - 1] == v[else_ - 1]);
            }
        }
    }
    assert forall|k: int| 0 <= k < w.len() && !is_open(o, k) && !pending_else(w, k) implies #[trigger] target_ok(w, k) by {
        if k < n {
            assert(w[k] == v[k]);
            lemma_target_push(v, x, k);
        }
    }
    assert forall|k: int| 0 <= k < w.len() && #[trigger] pending_else(w, k) implies exists|j: int|
        0 <= j < o.len() && (#[trigger] w[o[j] as int] matches Instr::If { else_, .. } && else_ == k + 1) by {
        assert(k < n);
        assert(w[k] == v[k]);
        assert(pending_else(v, k));
        let j = choose|j: int| 0 <= j < o.len() && (#[trigger] v[o[j] as int] matches Instr::If { else_, .. } && else_ == k + 1);
        assert(w[o[j] as int] == v[o[j] as int]);
    }
}

/// Pushing an unresolved block, loop or if opens it.
proof fn lemma_push_opener(v: Seq<Instr>, o: Seq<usize>, x: Instr)
    requires
        structure_inv(v, o),
        unresolved(x),
        x matches Instr::If { else_, .. } ==> else_ == u32::MAX,
        v.len() < usize::MAX,
    ensures
        structure_inv(v.push(x), o.push(v.len() as usize)),
{
    let w = v.push(x);
    let o2 = o.push(v.len() as usize);
    let n = v.len() as int;
    assert forall|j: int| 0 <= j < o2.len() implies #[trigger] o2[j] < w.len() by {
        if j < o.len() {
            assert(o2[j] == o[j]);
        }
    }
    assert forall|i: int, j: int| 0 <= i < j < o2.len() implies #[trigger] o2[i] < #[trigger] o2[j] by {
        assert(o2[i] == o[i]);
        if j < o.len() {
            assert(o2[j] == o[j]);
        }
    }
    assert forall|j: int| 0 <= j < o2.len() implies unresolved(#[trigger] w[o2[j] as int]) by {
        if j < o.len() {
            assert(o2[j] == o[j]);
            assert(w[o[j] as int] == v[o[j] as int]);
        }
    }
    assert forall|j: int| 0 <= j < o2.len() implies #[trigger] open_else_ok(w, o2, j) by {
        if j < o.len() {
            assert(o2[j] == o[j]);
            assert(open_else_ok(v, o, j));
            assert(w[o[j] as int] == v[o[j] as int]);
            if let Instr::If { else_, .. } = v[o[j] as int] {
                if else_ != u32::MAX {
                    assert(w[else_ - 1] == v[else_ - 1]);
                    assert forall|j2: int| j < j2 < o2.len() implies else_ - 1 < #[trigger] o2[j2] by {
                        if j2 < o.len() {
                            assert(o2[j2] == o[j2]);
                        }
                    }
                }
            }
        }
    }
    assert forall|k: int| 0 <= k < w.len() && !is_open(o2, k) && !pending_else(w, k) implies #[trigger] target_ok(w, k) by {
        if k == n {
            assert(o2[o.len() as int] == n);
        } else {
            assert(w[k] == v[k]);
            if is_open(o, k) {
                let j = choose|j: int| 0 <= j < o.len() && o[j] == k;
                assert(o2[j] == o[j]);
            }
            lemma_target_push(v, x, k);
        }
    }
    assert forall|k: int| 0 <= k < w.len() && #[trigger] pending_else(w, k) implies exists|j: int|
        0 <= j < o2.len() && (#[trigger] w[o2[j] as int] matches Instr::If { else_, .. } && else_ == k + 1) by {
        assert(k < n);
        assert(w[k] == v[k]);
        assert(pending_else(v, k));
        let j = choose|j: int| 0 <= j < o.len() && (#[trigger] v[o[j] as int] matches Instr::If { else_, .. } && else_ == k + 1);
        assert(o2[j] == o[j]);
        assert(w[o2[j] as int] == v[o[j] as int]);
    }
}

/// An if's else arm stays as it was where the body changes only at `p`
/// and `e`, away from that if, its `else` and the blocks of its first arm.
proof fn lemma_else_arm_frame(v: Seq<Instr>, w: Seq<Instr>, k: int, p: int, e: int)
    requires
        0 <= k < v.len() <= w.len(),
        target_ok(v, k),
        else_arm_ok(v, k),
        k != p && k != e,
        forall|i: int| 0 <= i < v.len() && i != p && i != e ==> #[trigger] w[i] == v[i],
        match v[k] {
            Instr::If { else_, end, .. } => else_ < end ==> {
                &&& else_ - 1 != p && else_ - 1 != e
                &&& (k < p < else_ - 1 ==> !is_opener(w[p]))
                &&& (k < e < else_ - 1 ==> !is_opener(w[e]))
            },
            _ => true,
        },
    ensures
        else_arm_ok(w, k),
{
    assert(w[k] == v[k]);
    if let Instr::If { else_, end, .. } = v[k] {
        if else_ < end {
            assert(w[else_ - 1] == v[else_ - 1]);
            assert forall|k2: int| k < k2 < else_ - 1 && is_opener(#[trigger] w[k2]) implies block_end(w[k2]) <= else_ - 1 by {
                assert(k2 != p && k2 != e);
                assert(w[k2] == v[k2]);
            }
        }
    }
}

/// Pushing an instruction that neither opens nor closes a block keeps the
/// nesting.
proof fn lemma_nest_plain(v: Seq<Instr>, o: Seq<usize>, x: Instr)
    requires
        structure_inv(v, o),
        nest_inv(v, o),
        !opens_or_closes(x),
    ensures
        nest_inv(v.push(x), o),
{
    let w = v.push(x);
    let n = v.len() as int;
    assert forall|k: int| #[trigger] resolved_opener(w, o, k) == resolved_opener(v, o, k) by {
        if 0 <= k < n {
            assert(w[k] == v[k]);
        }
    }
    assert forall|k1: int, k2: int|
        k1 < k2 && #[trigger] resolved_opener(w, o, k1) && #[trigger] resolved_opener(w, o, k2) implies block_end(
            w[k2],
        ) < block_end(w[k1]) || k2 >= block_end(w[k1]) by {
        assert(resolved_opener(v, o, k1) && resolved_opener(v, o, k2));
        assert(w[k1] == v[k1] && w[k2] == v[k2]);
    }
    assert forall|k1: int, j: int|
        0 <= j < o.len() && #[trigger] resolved_opener(w, o, k1) && k1 < #[trigger] o[j] implies o[j] >= block_end(w[k1]) by {
        assert(resolved_opener(v, o, k1));
        assert(w[k1] == v[k1]);
    }
    assert forall|m: int| 0 <= m < w.len() && (#[trigger] w[m]) is End implies exists|k: int|
        k < m && #[trigger] resolved_opener(w, o, k) && block_end(w[k]) == m + 1 by {
        assert(m < n);
        assert(w[m] == v[m]);
        let k = choose|k: int| k < m && #[trigger] resolved_opener(v, o, k) && block_end(v[k]) == m + 1;
        assert(resolved_opener(w, o, k));
        assert(w[k] == v[k]);
    }
    assert forall|k: int| #[trigger] resolved_opener(w, o, k) implies else_arm_ok(w, k) by {
        assert(resolved_opener(v, o, k));
        assert(target_ok(v, k));
        lemma_else_arm_frame(v, w, k, -1, -1);
    }
    assert forall|j: int| 0 <= j < o.len() implies #[trigger] open_arm_ok(w, o, j) by {
        assert(open_arm_ok(v, o, j));
        assert(open_else_ok(v, o, j));
        assert(w[o[j] as int] == v[o[j] as int]);
        if let Instr::If { else_, .. } = v[o[j] as int] {
            if else_ != u32::MAX {
                assert forall|k2: int| o[j] < k2 < else_ - 1 && is_opener(#[trigger] w[k2]) implies block_end(w[k2]) <= else_ - 1 by {
                    assert(w[k2] == v[k2]);
                }
            }
        }
    }
}

/// Pushing an unresolved block, loop or if keeps the nesting.
proof fn lemma_nest_opener(v: Seq<Instr>, o: Seq<usize>, x: Instr)
    requires
        structure_inv(v, o),
        nest_inv(v, o),
        unresolved(x),
        x matches Instr::If { else_, .. } ==> else_ == u32::MAX,
        v.len() < usize::MAX,
    ensures
        nest_inv(v.push(x), o.push(v.len() as usize)),
{
    let w = v.push(x);
    let o2 = o.push(v.len() as usize);
    let n = v.len() as int;
    assert forall|k: int| #[trigger] resolved_opener(w, o2, k) == resolved_opener(v, o, k) by {
        if 0 <= k < n {
            assert(w[k] == v[k]);
            if is_open(o, k) {
                let j = choose|j: int| 0 <= j < o.len() && o[j] == k;
                assert(o2[j] == o[j]);
            }
            if is_open(o2, k) {
                let j = choose|j: int| 0 <= j < o2.len() && o2[j] == k;
                assert(j < o.len());
                assert(o2[j] == o[j]);
            }
        } else if k == n {
            assert(o2[o.len() as int] == n);
        }
    }
    assert forall|k1: int, k2: int|
        k1 < k2 && #[trigger] resolved_opener(w, o2, k1) && #[trigger] resolved_opener(w, o2, k2) implies block_end(
            w[k2],
        ) < block_end(w[k1]) || k2 >= block_end(w[k1]) by {
        assert(resolved_opener(v, o, k1) && resolved_opener(v, o, k2));
        assert(w[k1] == v[k1] && w[k2] == v[k2]);
    }
    assert forall|k1: int, j: int|
        0 <= j < o2.len() && #[trigger] resolved_opener(w, o2, k1) && k1 < #[trigger] o2[j] implies o2[j] >= block_end(w[k1]) by {
        assert(resolved_opener(v, o, k1));
        assert(w[k1] == v[k1]);
        if j < o.len() {
            assert(o2[j] == o[j]);
        } else {
            assert(target_ok(v, k1));
        }
    }
    assert forall|m: int| 0 <= m < w.len() && (#[trigger] w[m]) is End implies exists|k: int|
        k < m && #[trigger] resolved_opener(w, o2, k) && block_end(w[k]) == m + 1 by {
        assert(m < n);
        assert(w[m] == v[m]);
        let k = choose|k: int| k < m && #[trigger] resolved_opener(v, o, k) && block_end(v[k]) == m + 1;
        assert(resolved_opener(w, o2, k));
        assert(w[k] == v[k]);
    }
    assert forall|k: int| #[trigger] resolved_opener(w, o2, k) implies else_arm_ok(w, k) by {
        assert(resolved_opener(v, o, k));
        assert(target_ok(v, k));
        lemma_else_arm_frame(v, w, k, -1, -1);
    }
    assert forall|j: int| 0 <= j < o2.len() implies #[trigger] open_arm_ok(w, o2, j) by {
        if j < o.len() {
            assert(o2[j] == o[j]);
            assert(open_arm_ok(v, o, j));
            assert(open_else_ok(v, o, j));
            assert(w[o[j] as int] == v[o[j] as int]);
            if let Instr::If { else_, .. } = v[o[j] as int] {
                if else_ != u32::MAX {
                    assert forall|k2: int| o2[j] < k2 < else_ - 1 && is_opener(#[trigger] w[k2]) implies block_end(w[k2]) <= else_ - 1 by {
                        assert(w[k2] == v[k2]);
                    }
                }
            }
        } else {
            assert(o2[j] == n);
        }
    }
}

/// Pushing the `end` of the whole body resolves everything.
proof fn lemma_close_body(v: Seq<Instr>, o: Seq<usize>)
    requires
        structure_inv(v, o),
        nest_inv(v, o),
        o.len() == 0,
    ensures
        targets_resolved(v.push(Instr::End)),
{
    let w = v.push(Instr::End);
    let n = v.len() as int;
    assert forall|k: int| 0 <= k < n && is_opener(v[k]) implies #[trigger] resolved_opener(v, o, k) by {
        assert(!is_open(o, k));
    }
    assert forall|k1: int, k2: int|
        #![trigger is_opener(w[k1]), is_opener(w[k2])]
        0 <= k1 < k2 < w.len() && is_opener(w[k1]) && is_opener(w[k2]) implies block_end(w[k2]) < block_end(w[k1])
            || k2 >= block_end(w[k1]) by {
        assert(k2 < n);
        assert(w[k1] == v[k1] && w[k2] == v[k2]);
        assert(resolved_opener(v, o, k1) && resolved_opener(v, o, k2));
    }
    assert forall|m: int| 0 <= m < w.len() - 1 && (#[trigger] w[m]) is End implies exists|k: int|
        0 <= k < m && is_opener(#[trigger] w[k]) && block_end(w[k]) == m + 1 by {
        assert(w[m] == v[m]);
        let k = choose|k: int| k < m && #[trigger] resolved_opener(v, o, k) && block_end(v[k]) == m + 1;
        assert(w[k] == v[k]);
    }
    assert forall|k: int| 0 <= k < w.len() implies #[trigger] else_arm_ok(w, k) by {
        if k < n {
            assert(w[k] == v[k]);
            if is_opener(v[k]) {
                assert(resolved_opener(v, o, k));
                assert(target_ok(v, k));
                lemma_else_arm_frame(v, w, k, -1, -1);
            }
        }
    }
    assert forall|k: int| 0 <= k < w.len() implies target_ok(w, k) by {
        if k < v.len() {
            assert(!is_open(o, k));
            if pending_else(v, k) {
                assert(false);
            }
            assert(target_ok(v, k));
            lemma_target_push(v, Instr::End, k);
        }
    }
}

/// Closing the innermost open block at its `end`: the body `w` is `v`
/// with the `end` pushed, the opener resolved and, for an `if` with an
/// else arm, that `else` resolved too.
proof fn lemma_close_block(v: Seq<Instr>, o: Seq<usize>, w: Seq<Instr>, has_else: bool, e: int)
    requires
        structure_inv(v, o),
        o.len() > 0,
        v.len() + 1 < u32::MAX,
        w.len() == v.len() + 1,
        w[v.len() as int] is End,
        target_ok(w, o.last() as int),
        !(w[o.last() as int] is Else),
        has_else ==> (v[o.last() as int] matches Instr::If { else_, .. } && else_ != u32::MAX && e
            == else_ - 1),
        has_else ==> (w[e] matches Instr::Else { end } && end == v.len() + 1),
        !has_else ==> !(v[o.last() as int] matches Instr::If { else_, .. } && else_ != u32::MAX),
        forall|i: int| 0 <= i < v.len() && i != o.last() && (!has_else || i != e) ==> #[trigger] w[i] == v[i],
    ensures
        structure_inv(w, o.drop_last()),
{
    let n = v.len() as int;
    let last = o.len() - 1;
    let p = o[last] as int;
    let o2 = o.drop_last();
    assert(open_else_ok(v, o, last));
    assert(unresolved(v[p]));
    if has_else {
        assert(pending_else(v, e));
        assert(p < e < n);
    }
    assert forall|j: int| 0 <= j < o2.len() implies #[trigger] o2[j] < w.len() by {
        assert(o2[j] == o[j]);
    }
    assert forall|i: int, j: int| 0 <= i < j < o2.len() implies #[trigger] o2[i] < #[trigger] o2[j] by {
        assert(o2[i] == o[i]);
        assert(o2[j] == o[j]);
    }
    assert forall|j: int| 0 <= j < o2.len() implies unresolved(#[trigger] w[o2[j] as int]) by {
        assert(o2[j] == o[j]);
        assert(o[j] < o[last]);
        assert(unresolved(v[o[j] as int]));
        if has_else && o[j] == e {
            assert(pending_else(v, e));
        }
        assert(w[o[j] as int] == v[o[j] as int]);
    }
    assert forall|j: int| 0 <= j < o2.len() implies #[trigger] open_else_ok(w, o2, j) by {
        assert(o2[j] == o[j]);
        assert(o[j] < o[last]);
        assert(unresolved(v[o[j] as int]));
        if has_else && o[j] == e {
            assert(pending_else(v, e));
        }
        assert(w[o[j] as int] == v[o[j] as int]);
        assert(open_else_ok(v, o, j));
        if let Instr::If { else_, .. } = v[o[j] as int] {
            if else_ != u32::MAX {
                assert(else_ - 1 < o[last]);
                assert(w[else_ - 1] == v[else_ - 1]);
                assert forall|j2: int| j < j2 < o2.len() implies else_ - 1 < #[trigger] o2[j2] by {
                    assert(o2[j2] == o[j2]);
                }
            }
        }
    }
    assert forall|k: int| 0 <= k < w.len() && !is_open(o2, k) && !pending_else(w, k) implies #[trigger] target_ok(w, k) by {
        if k == n || k == p || (has_else && k == e) {
        } else {
            assert(w[k] == v[k]);
            if is_open(o, k) {
                let j = choose|j: int| 0 <= j < o.len() && o[j] == k;
                assert(j != last);
                assert(o2[j] == o[j]);
            }
            assert(!pending_else(v, k));
            assert(target_ok(v, k));
            match v[k] {
                Instr::Block { end, .. } => {
                    assert(end - 1 != p);
                    assert(!has_else || end - 1 != e);
                    assert(w[end - 1] == v[end - 1]);
                },
                Instr::Loop { end, .. } => {
                    assert(end - 1 != p);
                    assert(!has_else || end - 1 != e);
                    assert(w[end - 1] == v[end - 1]);
                },
                Instr::If { else_, end, .. } => {
                    assert(end - 1 != p);
                    assert(!has_else || end - 1 != e);
                    assert(w[end - 1] == v[end - 1]);
                    if else_ < end {
                        assert(else_ - 1 != p);
                        if !(has_else && else_ - 1 == e) {
                            assert(w[else_ - 1] == v[else_ - 1]);
                        }
                    }
                },
                Instr::Else { end } => {
                    assert(end - 1 != p);
                    assert(!has_else || end - 1 != e);
                    assert(w[end - 1] == v[end - 1]);
                },
                _ => {},
            }
        }
    }
    assert forall|k: int| 0 <= k < w.len() && #[trigger] pending_else(w, k) implies exists|j: int|
        0 <= j < o2.len() && (#[trigger] w[o2[j] as int] matches Instr::If { else_, .. } && else_ == k + 1) by {
        assert(k != n && k != p);
        assert(!(has_else && k == e));
        assert(w[k] == v[k]);
        assert(pending_else(v, k));
        let j = choose|j: int| 0 <= j < o.len() && (#[trigger] v[o[j] as int] matches Instr::If { else_, .. } && else_ == k + 1);
        assert(j != last);
        assert(o2[j] == o[j]);
        assert(o[j] < o[last]);
        assert(unresolved(v[o[j] as int]));
        if has_else && o[j] == e {
            assert(pending_else(v, e));
        }
        assert(w[o2[j] as int] == v[o[j] as int]);
    }
}

/// Closing the innermost open block keeps the nesting: the body `w` is as
/// in `lemma_close_block`, with the opener now ending one past the new
/// `end`.
proof fn lemma_nest_close(v: Seq<Instr>, o: Seq<usize>, w: Seq<Instr>, has_else: bool, e: int)
    requires
        structure_inv(v, o),
        nest_inv(v, o),
        o.len() > 0,
        v.len() + 1 < u32::MAX,
        w.len() == v.len() + 1,
        w[v.len() as int] is End,
        is_opener(w[o.last() as int]),
        block_end(w[o.last() as int]) == v.len() + 1,
        w[o.last() as int] matches Instr::If { else_, end, .. } ==> (if has_else {
            else_ == e + 1
        } else {
            else_ == end
        }),
        has_else ==> (v[o.last() as int] matches Instr::If { else_, .. } && else_ != u32::MAX && e
            == else_ - 1),
        has_else ==> (w[e] matches Instr::Else { end } && end == v.len() + 1),
        forall|i: int| 0 <= i < v.len() && i != o.last() && (!has_else || i != e) ==> #[trigger] w[i] == v[i],
    ensures
        nest_inv(w, o.drop_last()),
{
    let n = v.len() as int;
    let last = o.len() - 1;
    let p = o[last] as int;
    let o2 = o.drop_last();
    let ee = if has_else { e } else { -1 };
    assert(open_else_ok(v, o, last));
    assert(unresolved(v[p]));
    if has_else {
        assert(pending_else(v, e));
        assert(p < e < n);
    }
    assert forall|i: int| 0 <= i < v.len() && i != p && i != ee implies #[trigger] w[i] == v[i] by {}
    assert forall|k: int| #[trigger] resolved_opener(w, o2, k) == (resolved_opener(v, o, k) || k == p) by {
        if 0 <= k < n && k != p {
            if has_else && k == e {
                assert(pending_else(v, e));
            } else {
                assert(w[k] == v[k]);
            }
            if is_open(o, k) {
                let j = choose|j: int| 0 <= j < o.len() && o[j] == k;
                assert(j != last);
                assert(o2[j] == o[j]);
            }
            if is_open(o2, k) {
                let j = choose|j: int| 0 <= j < o2.len() && o2[j] == k;
                assert(o2[j] == o[j]);
            }
        } else if k == p {
            if is_open(o2, k) {
                let j = choose|j: int| 0 <= j < o2.len() && o2[j] == k;
                assert(o2[j] == o[j]);
                assert(o[j] < o[last]);
            }
        }
    }
    assert forall|k1: int, k2: int|
        k1 < k2 && #[trigger] resolved_opener(w, o2, k1) && #[trigger] resolved_opener(w, o2, k2) implies block_end(
            w[k2],
        ) < block_end(w[k1]) || k2 >= block_end(w[k1]) by {
        if k1 == p {
            assert(resolved_opener(v, o, k2));
            assert(target_ok(v, k2));
            assert(w[k2] == v[k2]);
        } else if k2 == p {
            assert(resolved_opener(v, o, k1));
            assert(w[k1] == v[k1]);
            assert(o[last] >= block_end(v[k1]));
        } else {
            assert(resolved_opener(v, o, k1) && resolved_opener(v, o, k2));
            assert(w[k1] == v[k1] && w[k2] == v[k2]);
        }
    }
    assert forall|k1: int, j: int|
        0 <= j < o2.len() && #[trigger] resolved_opener(w, o2, k1) && k1 < #[trigger] o2[j] implies o2[j] >= block_end(w[k1]) by {
        assert(o2[j] == o[j]);
        assert(o[j] < o[last]);
        assert(k1 != p);
        assert(resolved_opener(v, o, k1));
        assert(w[k1] == v[k1]);
    }
    assert forall|m: int| 0 <= m < w.len() && (#[trigger] w[m]) is End implies exists|k: int|
        k < m && #[trigger] resolved_opener(w, o2, k) && block_end(w[k]) == m + 1 by {
        if m == n {
            assert(resolved_opener(w, o2, p));
        } else {
            assert(m != p && m != ee);
            assert(w[m] == v[m]);
            let k = choose|k: int| k < m && #[trigger] resolved_opener(v, o, k) && block_end(v[k]) == m + 1;
            assert(resolved_opener(w, o2, k));
            assert(k != p);
            assert(w[k] == v[k]);
        }
    }
    assert forall|k: int| #[trigger] resolved_opener(w, o2, k) implies else_arm_ok(w, k) by {
        if k == p {
            if has_else {
                assert(open_arm_ok(v, o, last));
                assert forall|k2: int| p < k2 < e && is_opener(#[trigger] w[k2]) implies block_end(w[k2]) <= e by {
                    assert(w[k2] == v[k2]);
                }
            }
        } else {
            assert(resolved_opener(v, o, k));
            assert(target_ok(v, k));
            assert(k != ee);
            if let Instr::If { else_, end, .. } = v[k] {
                if else_ < end {
                    assert(else_arm_ok(v, k));
                    assert(else_ - 1 != p);
                    if has_else {
                        assert(else_ - 1 != e);
                    }
                    if k < p < else_ - 1 {
                        assert(is_opener(v[p]));
                        assert(false);
                    }
                }
            }
            lemma_else_arm_frame(v, w, k, p, ee);
        }
    }
    assert forall|j: int| 0 <= j < o2.len() implies #[trigger] open_arm_ok(w, o2, j) by {
        assert(o2[j] == o[j]);
        assert(o[j] < o[last]);
        assert(open_arm_ok(v, o, j));
        assert(open_else_ok(v, o, j));
        assert(unresolved(v[o[j] as int]));
        assert(o[j] != ee);
        assert(w[o[j] as int] == v[o[j] as int]);
        if let Instr::If { else_, .. } = v[o[j] as int] {
            if else_ != u32::MAX {
                assert(else_ - 1 < o[last]);
                assert forall|k2: int| o2[j] < k2 < else_ - 1 && is_opener(#[trigger] w[k2]) implies block_end(w[k2]) <= else_ - 1 by {
                    assert(k2 != ee);
                    assert(w[k2] == v[k2]);
                }
            }
        }
    }
}

/// An `else` keeps the nesting: the blocks opened in the first arm of
/// the innermost `if` have all ended.
proof fn lemma_nest_open_else(v: Seq<Instr>, o: Seq<usize>, bt: BlockType, end0: u32)
    requires
        structure_inv(v, o),
        nest_inv(v, o),
        o.len() > 0,
        v.len() + 1 < u32::MAX,
        v[o.last() as int] == (Instr::If { bt, else_: u32::MAX, end: end0 }),
    ensures
        nest_inv(
            v.update(o.last() as int, Instr::If { bt, else_: (v.len() + 1) as u32, end: end0 }).push(
                Instr::Else { end: u32::MAX },
            ),
            o,
        ),
{
    let n = v.len() as int;
    let last = o.len() - 1;
    let p = o[last] as int;
    let w = v.update(p, Instr::If { bt, else_: (v.len() + 1) as u32, end: end0 }).push(Instr::Else { end: u32::MAX });
    assert(unresolved(v[p]));
    assert forall|i: int| 0 <= i < v.len() && i != p && i != n implies #[trigger] w[i] == v[i] by {}
    assert forall|k: int| #[trigger] resolved_opener(w, o, k) == resolved_opener(v, o, k) by {
        if 0 <= k < n && k != p {
            assert(w[k] == v[k]);
        }
        if k == p {
            assert(is_open(o, p));
        }
    }
    assert forall|k1: int, k2: int|
        k1 < k2 && #[trigger] resolved_opener(w, o, k1) && #[trigger] resolved_opener(w, o, k2) implies block_end(
            w[k2],
        ) < block_end(w[k1]) || k2 >= block_end(w[k1]) by {
        assert(resolved_opener(v, o, k1) && resolved_opener(v, o, k2));
        assert(k1 != p && k2 != p);
        assert(w[k1] == v[k1] && w[k2] == v[k2]);
    }
    assert forall|k1: int, j: int|
        0 <= j < o.len() && #[trigger] resolved_opener(w, o, k1) && k1 < #[trigger] o[j] implies o[j] >= block_end(w[k1]) by {
        assert(resolved_opener(v, o, k1));
        assert(k1 != p);
        assert(w[k1] == v[k1]);
    }
    assert forall|m: int| 0 <= m < w.len() && (#[trigger] w[m]) is End implies exists|k: int|
        k < m && #[trigger] resolved_opener(w, o, k) && block_end(w[k]) == m + 1 by {
        assert(m != n && m != p);
        assert(w[m] == v[m]);
        let k = choose|k: int| k < m && #[trigger] resolved_opener(v, o, k) && block_end(v[k]) == m + 1;
        assert(resolved_opener(w, o, k));
        assert(k != p);
        assert(w[k] == v[k]);
    }
    assert forall|k: int| #[trigger] resolved_opener(w, o, k) implies else_arm_ok(w, k) by {
        assert(resolved_opener(v, o, k));
        assert(k != p);
        assert(target_ok(v, k));
        if let Instr::If { else_, end, .. } = v[k] {
            if else_ < end {
                assert(else_arm_ok(v, k));
                if k < p < else_ - 1 {
                    assert(is_opener(v[p]));
                    assert(false);
                }
            }
        }
        lemma_else_arm_frame(v, w, k, p, n);
    }
    assert forall|j: int| 0 <= j < o.len() implies #[trigger] open_arm_ok(w, o, j) by {
        if j < last {
            assert(o[j] < o[last]);
            assert(open_arm_ok(v, o, j));
            assert(open_else_ok(v, o, j));
            assert(w[o[j] as int] == v[o[j] as int]);
            if let Instr::If { else_, .. } = v[o[j] as int] {
                if else_ != u32::MAX {
                    assert(else_ - 1 < o[last]);
                    assert forall|k2: int| o[j] < k2 < else_ - 1 && is_opener(#[trigger] w[k2]) implies block_end(w[k2]) <= else_ - 1 by {
                        assert(w[k2] == v[k2]);
                    }
                }
            }
        } else {
            assert forall|k2: int| p < k2 < n && is_opener(#[trigger] w[k2]) implies block_end(w[k2]) <= n by {
                assert(w[k2] == v[k2]);
                if is_open(o, k2) {
                    let j2 = choose|j2: int| 0 <= j2 < o.len() && o[j2] == k2;
                    assert(o[j2] <= o[last]) by {
                        if j2 < last {
                            assert(o[j2] < o[last]);
                        }
                    }
                }
                assert(resolved_opener(v, o, k2));
                assert(target_ok(v, k2));
            }
        }
    }
}

/// An `else` closing the first arm of the innermost open `if`.
proof fn lemma_open_else(v: Seq<Instr>, o: Seq<usize>, bt: BlockType, end0: u32)
    requires
        structure_inv(v, o),
        o.len() > 0,
        v.len() + 1 < u32::MAX,
        v[o.last() as int] == (Instr::If { bt, else_: u32::MAX, end: end0 }),
    ensures
        structure_inv(
            v.update(o.last() as int, Instr::If { bt, else_: (v.len() + 1) as u32, end: end0 }).push(
                Instr::Else { end: u32::MAX },
            ),
            o,
        ),
{
    let n = v.len() as int;
    let last = o.len() - 1;
    let p = o[last] as int;
    let w = v.update(p, Instr::If { bt, else_: (v.len() + 1) as u32, end: end0 }).push(Instr::Else { end: u32::MAX });
    assert(unresolved(v[p]));
    assert forall|j: int| 0 <= j < o.len() implies unresolved(#[trigger] w[o[j] as int]) by {
        assert(unresolved(v[o[j] as int]));
    }
    assert forall|j: int| 0 <= j < o.len() implies #[trigger] open_else_ok(w, o, j) by {
        if j < last {
            assert(o[j] < o[last]);
            assert(w[o[j] as int] == v[o[j] as int]);
            assert(open_else_ok(v, o, j));
            if let Instr::If { else_, .. } = v[o[j] as int] {
                if else_ != u32::MAX {
                    assert(else_ - 1 < o[last]);
                    assert(w[else_ - 1] == v[else_ - 1]);
                }
            }
        } else {
            assert(pending_else(w, n));
        }
    }
    assert forall|k: int| 0 <= k < w.len() && !is_open(o, k) && !pending_else(w, k) implies #[trigger] target_ok(w, k) by {
        if k < n && k != p {
            assert(w[k] == v[k]);
            assert(!pending_else(v, k));
            assert(target_ok(v, k));
            match v[k] {
                Instr::Block { end, .. } => assert(w[end - 1] == v[end - 1]),
                Instr::Loop { end, .. } => assert(w[end - 1] == v[end - 1]),
                Instr::If { else_, end, .. } => {
                    assert(w[end - 1] == v[end - 1]);
                    if else_ < end {
                        assert(w[else_ - 1] == v[else_ - 1]);
                    }
                },
                Instr::Else { end } => assert(w[end - 1] == v[end - 1]),
                _ => {},
            }
        } else if k == p {
            assert(o[last] == k);
        }
    }
    assert forall|k: int| 0 <= k < w.len() && #[trigger] pending_else(w, k) implies exists|j: int|
        0 <= j < o.len() && (#[trigger] w[o[j] as int] matches Instr::If { else_, .. } && else_ == k + 1) by {
        if k == n {
            assert(w[o[last] as int] matches Instr::If { else_, .. } && else_ == k + 1);
        } else {
            assert(k != p);
            assert(w[k] == v[k]);
            assert(pending_else(v, k));
            let j = choose|j: int| 0 <= j < o.len() && (#[trigger] v[o[j] as int] matches Instr::If { else_, .. } && else_ == k + 1);
            assert(j != last);
            assert(o[j] < o[last]);
            assert(w[o[j] as int] == v[o[j] as int]);
        }
    }
}

/// Whether `i` is the SIMD instruction with sub-opcode `sub` whose
/// immediates are the bytes of `b` from `p` up to `end`: a memory
/// operator's memory immediate and lane byte, a constant's 16 bytes
/// (little-endian), a shuffle's 16 lane bytes, a lane operator's lane byte,
/// or nothing.
pub open spec fn simd_encoding(b: Seq<u8>, p: int, sub: int, i: Instr, end: int) -> bool {
    match i {
        Instr::SimdMem { op, align, offset, lane } => {
            &&& sub == crate::opcodes::simd_mem_code(op)
            &&& memarg_at(b, p) matches Some(ma)
            &&& ma.0 == align && ma.1 == offset
            &&& if crate::opcodes::simd_mem_has_lane(op) {
                end == p + ma.2 + 1 && lane == b[p + ma.2]
            } else {
                end == p + ma.2 && lane == 0
            }
        },
        Instr::V128Const(v) => sub == 0x0c && end == p + 16 && v == le_value(b.subrange(p, p + 16)),
        Instr::Shuffle(lanes) => sub == 0x0d && end == p + 16 && lanes@ == b.subrange(p, p + 16),
        Instr::SimdLane { op, lane } => sub == crate::opcodes::lane_code(op) && end == p + 1 && lane == b[p],
        Instr::Simd(op) => sub == crate::opcodes::simd_code(op) && end == p,
        _ => false,
    }
}

/// Whether the immediates that the `0xfd` sub-opcode `sub` takes are all
/// present and well formed at `p`: a memory operator's memory immediate (and,
/// for a lane load or store, the lane byte after it), a constant's or a
/// shuffle's 16 bytes, a lane operator's lane byte; any other sub-opcode is
/// accepted exactly when it names an operator.
pub open spec fn simd_immediates_fit(b: Seq<u8>, p: int, sub: int) -> bool {
    if sub <= 0x0b || 0x54 <= sub <= 0x5d {
        memarg_at(b, p) matches Some(ma) && (0x54 <= sub <= 0x5b ==> p + ma.2 < b.len())
    } else if sub == 0x0c || sub == 0x0d {
        p + 16 <= b.len()
    } else if 0x15 <= sub <= 0x22 {
        p < b.len()
    } else {
        exists|o: crate::module::SimdOp| #[trigger] crate::opcodes::simd_code(o) == sub
    }
}

/// The engine's limit on the locals a function declares (parameters not
/// counted): a body declaring more is rejected, not allocated.
pub const MAX_LOCALS: u64 = 1000000;

/// The `u32` that opens the first section with id `id` from `pos` on, over
/// framed sections (`None` where there is none).
pub open spec fn section_lead(b: Seq<u8>, pos: int, id: u8) -> Option<nat>
    decreases b.len() - pos,
{
    if pos < 0 || pos >= b.len() {
        None
    } else {
        match leb_at(b, pos + 1, 32, false) {
            Some((size, l)) => {
                let start = pos + 1 + l;
                if b[pos] == id {
                    match leb_at(b, start, 32, false) {
                        Some((v, _)) => if v >= 0 { Some(v as nat) } else { None },
                        None => None,
                    }
                } else if l >= 1 && size >= 0 && start + size <= b.len() {
                    section_lead(b, start + size, id)
                } else {
                    None
                }
            },
            None => None,
        }
    }
}

/// Whether the framed sections from `pos` on hold one with id `id`.
pub open spec fn section_found(b: Seq<u8>, pos: int, id: u8) -> bool
    decreases b.len() - pos,
{
    if pos < 0 || pos >= b.len() {
        false
    } else {
        match leb_at(b, pos + 1, 32, false) {
            Some((size, l)) => {
                let start = pos + 1 + l;
                if b[pos] == id {
                    true
                } else if l >= 1 && size >= 0 && start + size <= b.len() {
                    section_found(b, start + size, id)
                } else {
                    false
                }
            },
            None => false,
        }
    }
}

/// How the eight header bytes decide the outcome of decoding.
pub open spec fn module_header_outcome(bytes: Seq<u8>, r: Result<Module, DecodeError>) -> bool {
    let magic = seq![0u8, 0x61, 0x73, 0x6d];
    &&& bytes.len() < 4 ==> (r matches Err(e) && e.offset == 0 && e.msg@ == "unexpected end"@)
    &&& bytes.len() >= 4 && bytes.take(4) != magic ==> (r matches Err(e) && e.offset == 0
        && e.msg@ == "magic header not detected"@)
    &&& bytes.len() >= 4 && bytes.take(4) == magic && bytes.len() < 8 ==> (r matches Err(e)
        && e.offset == 4 && e.msg@ == "unexpected end"@)
    &&& bytes.len() >= 8 && bytes.take(4) == magic && bytes.subrange(4, 8) != seq![1u8, 0, 0, 0]
        ==> (r matches Err(e) && e.offset == 4 && e.msg@ == "unknown binary version"@)
    &&& bytes == seq![0u8, 0x61, 0x73, 0x6d, 1, 0, 0, 0] ==> r is Ok
    &&& r is Ok ==> bytes.len() >= 8 && bytes.take(8) == seq![0u8, 0x61, 0x73, 0x6d, 1, 0, 0, 0]
}

struct Decoder<'a> {
    b: &'a [u8],
    pos: usize,
}

impl<'a> Decoder<'a> {
    spec fn wf(&self) -> bool {
        self.pos <= self.b@.len() && self.b@.len() < u32::MAX
    }

    fn new(b: &'a [u8]) -> (d: Self)
        ensures
            d.b == b,
            d.pos == 0,
    {
        Decoder { b, pos: 0 }
    }

    /// An error at the current position.
    fn err(&self, msg: &str) -> (e: DecodeError)
        ensures
            e.offset == self.pos,
            e.msg@ == msg@,
    {
        DecodeError { offset: self.pos, msg: text(msg) }
    }

    /// An error at the current position with an owned message.
    fn err_owned(&self, msg: String) -> (e: DecodeError)
        ensures
            e.offset == self.pos,
            e.msg@ == msg@,
    {
        DecodeError { offset: self.pos, msg }
    }

    fn eof(&self) -> (e: DecodeError)
        ensures
            e.offset == self.pos,
            e.msg@ == eof_msg(),
    {
        self.err("unexpected end of section or function")
    }

    fn byte(&mut self) -> (r: Result<u8, DecodeError>)
        requires
            old(self).wf(),
        ensures
            final(self).wf(),
            final(self).b == old(self).b,
            final(self).pos >= old(self).pos,
            r matches Err(e) ==> e.offset <= old(self).b@.len(),
            match r {
                Ok(v) => old(self).pos < old(self).b@.len() && v == old(self).b@[old(
                    self,
                ).pos as int] && final(self).pos == old(self).pos + 1,
                Err(e) => old(self).pos == old(self).b@.len() && e.offset == old(self).pos
                    && e.msg@ == eof_msg() && final(self).pos == old(self).pos,
            },
    {
        if self.pos >= self.b.len() {
            return Err(self.eof());
        }
        let v = self.b[self.pos];
        self.pos = self.pos + 1;
        Ok(v)
    }

    fn peek(&self) -> (r: Option<u8>)
        requires
            self.wf(),
        ensures
            r == (if self.pos < self.b@.len() {
                Some(self.b@[self.pos as int])
            } else {
                None::<u8>
            }),
    {
        if self.pos < self.b.len() {
            Some(self.b[self.pos])
        } else {
            None
        }
    }

    fn take(&mut self, n: usize) -> (r: Result<&'a [u8], DecodeError>)
        requires
            old(self).wf(),
        ensures
            final(self).wf(),
            final(self).b == old(self).b,
            final(self).pos >= old(self).pos,
            r matches Err(e) ==> e.offset <= old(self).b@.len(),
            match r {
                Ok(s) => old(self).pos + n <= old(self).b@.len() && s@ == old(self).b@.subrange(
                    old(self).pos as int,
                    old(self).pos + n,
                ) && final(self).pos == old(self).pos + n,
                Err(e) => old(self).pos + n > old(self).b@.len() && e.offset == old(self).pos
                    && e.msg@ == eof_msg() && final(self).pos == old(self).pos,
            },
    {
        if self.b.len() - self.pos < n {
            return Err(self.eof());
        }
        let s = &self.b[self.pos..self.pos + n];
        self.pos = self.pos + n;
        Ok(s)
    }

    /// Reads a LEB128 integer of at most `bits` significant bits, returning
    /// the unsigned value of its bytes and their number.
    fn leb(&mut self, bits: u32, signed: bool) -> (r: Result<(u128, usize), DecodeError>)
        requires
            old(self).wf(),
            1 <= bits <= 64,
        ensures
            final(self).wf(),
            final(self).b == old(self).b,
            final(self).pos >= old(self).pos,
            r matches Err(e) ==> e.offset <= old(self).b@.len(),
            ({
                let s = old(self).b@.subrange(old(self).pos as int, old(self).b@.len() as int);
                match r {
                    Ok((v, n)) => leb_scan(s, bits as nat, signed, 0) == LebScan::Done(n as nat)
                        && v == leb_value(s.take(n as int)) && final(self).pos == old(self).pos
                        + n && 1 <= n <= max_len(bits as nat),
                    Err(e) => leb_at(old(self).b@, old(self).pos as int, bits as nat, signed)
                        is None && (e.offset as int, leb_fail(
                        old(self).b@,
                        old(self).pos as int,
                        bits as nat,
                        signed,
                    ).1) == leb_fail(old(self).b@, old(self).pos as int, bits as nat, signed)
                        && e.msg@ == leb_error_msg(
                        leb_fail(old(self).b@, old(self).pos as int, bits as nat, signed).1,
                    ),
                }
            }),
    {
        let start = self.pos;
        match read_leb(self.b, start, bits, signed) {
            Ok((v, n)) => {
                self.pos = start + n;
                Ok((v, n))
            },
            Err(e) => {
                let ghost s = self.b@.subrange(start as int, self.b@.len() as int);
                let max: usize = ((bits + 6) / 7) as usize;
                let off: usize = match e {
                    LebError::Eof => self.b.len(),
                    _ => {
                        proof {
                            assert(!(leb_scan(s, bits as nat, signed, 0) is Eof));
                            lemma_scan_fail_len(s, bits as nat, signed, 0);
                        }
                        start + max
                    },
                };
                let msg = match e {
                    LebError::Eof => text("unexpected end of section or function"),
                    LebError::TooLong => text("integer representation too long"),
                    LebError::TooLarge => text("integer too large"),
                };
                Err(DecodeError { offset: off, msg })
            },
        }
    }

    /// Unsigned LEB128 with at most `bits` significant bits.
    fn uleb(&mut self, bits: u32) -> (r: Result<u64, DecodeError>)
        requires
            old(self).wf(),
            1 <= bits <= 64,
        ensures
            final(self).wf(),
            final(self).b == old(self).b,
            final(self).pos >= old(self).pos,
            r matches Err(e) ==> e.offset <= old(self).b@.len(),
            r is Ok ==> final(self).pos > old(self).pos,
            match r {
                Ok(v) => leb_at(old(self).b@, old(self).pos as int, bits as nat, false) == Some(
                    (v as int, final(self).pos - old(self).pos),
                ) && v < pow2(bits as nat),
                Err(e) => leb_at(old(self).b@, old(self).pos as int, bits as nat, false) is None
                    && (e.offset as int, leb_fail(old(self).b@, old(self).pos as int, bits as nat, false).1)
                    == leb_fail(old(self).b@, old(self).pos as int, bits as nat, false)
                    && e.msg@ == leb_error_msg(leb_fail(old(self).b@, old(self).pos as int, bits as nat, false).1),
            },
    {
        let ghost s = self.b@.subrange(self.pos as int, self.b@.len() as int);
        let (v, _n) = self.leb(bits, false)?;
        proof {
            lemma_uleb_fits(s, bits as nat);
            lemma2_to64();
            if bits < 64 {
                lemma_pow2_strictly_increases(bits as nat, 64);
            }
        }
        Ok(v as u64)
    }

    fn u32(&mut self) -> (r: Result<u32, DecodeError>)
        requires
            old(self).wf(),
        ensures
            final(self).wf(),
            final(self).b == old(self).b,
            final(self).pos >= old(self).pos,
            r matches Err(e) ==> e.offset <= old(self).b@.len(),
            r is Ok ==> final(self).pos > old(self).pos,
            match r {
                Ok(v) => leb_at(old(self).b@, old(self).pos as int, 32, false) == Some(
                    (v as int, final(self).pos - old(self).pos),
                ),
                Err(e) => leb_at(old(self).b@, old(self).pos as int, 32, false) is None
                    && (e.offset as int, leb_fail(old(self).b@, old(self).pos as int, 32, false).1)
                    == leb_fail(old(self).b@, old(self).pos as int, 32, false)
                    && e.msg@ == leb_error_msg(leb_fail(old(self).b@, old(self).pos as int, 32, false).1),
            },
    {
        let v = self.uleb(32)?;
        proof {
            lemma2_to64();
        }
        Ok(v as u32)
    }

    /// Signed LEB128 with at most `bits` significant bits.
    fn sleb(&mut self, bits: u32) -> (r: Result<i64, DecodeError>)
        requires
            old(self).wf(),
            1 <= bits <= 64,
        ensures
            final(self).wf(),
            final(self).b == old(self).b,
            final(self).pos >= old(self).pos,
            r matches Err(e) ==> e.offset <= old(self).b@.len(),
            r is Ok ==> final(self).pos > old(self).pos,
            match r {
                Ok(v) => leb_at(old(self).b@, old(self).pos as int, bits as nat, true) == Some(
                    (v as int, final(self).pos - old(self).pos),
                ) && -pow2((bits - 1) as nat) <= v < pow2((bits - 1) as nat),
                Err(e) => leb_at(old(self).b@, old(self).pos as int, bits as nat, true) is None
                    && (e.offset as int, leb_fail(old(self).b@, old(self).pos as int, bits as nat, true).1)
                    == leb_fail(old(self).b@, old(self).pos as int, bits as nat, true)
                    && e.msg@ == leb_error_msg(leb_fail(old(self).b@, old(self).pos as int, bits as nat, true).1),
            },
    {
        let ghost s = self.b@.subrange(self.pos as int, self.b@.len() as int);
        let start = self.pos;
        let (v, n) = self.leb(bits, true)?;
        let last = self.b[start + n - 1];
        proof {
            lemma_sleb_fits(s, bits as nat);
            lemma2_to64();
            lemma2_to64_rest();
            if bits < 64 {
                lemma_pow2_strictly_increases((bits - 1) as nat, 63);
            }
            assert(s.take(n as int).last() == last);
            assert(s.take(n as int).len() == n);
            crate::leb::lemma_leb_value_bound(s.take(n as int));
            assert(n <= 10);
            if n < 10 {
                lemma_pow2_strictly_increases((7 * n) as nat, 70);
            }
            lemma_pow2_adds(64, 6);
            assert(pow2(70) == 0x1_0000_0000_0000_0000 * 64);
        }
        let p = pow128(n);
        let signed: i128 = if last % 128 >= 64 {
            v as i128 - p as i128
        } else {
            v as i128
        };
        assert(signed == sleb_value(s.take(n as int)));
        Ok(signed as i64)
    }

    fn s32(&mut self) -> (r: Result<u32, DecodeError>)
        requires
            old(self).wf(),
        ensures
            final(self).wf(),
            final(self).b == old(self).b,
            final(self).pos >= old(self).pos,
            r matches Err(e) ==> e.offset <= old(self).b@.len(),
            r is Ok ==> final(self).pos > old(self).pos,
            r matches Ok(v) ==> leb_at(old(self).b@, old(self).pos as int, 32, true) == Some(
                (signed_of_u32(v), final(self).pos - old(self).pos),
            ),
            r matches Err(e) ==> leb_at(old(self).b@, old(self).pos as int, 32, true) is None,
            r matches Err(e) ==> e.msg@ == leb_error_msg(leb_fail(old(self).b@, old(self).pos as int, 32, true).1),
    {
        let v = match self.sleb(32) {
            Ok(v) => v,
            Err(e) => return Err(e),
        };
        proof {
            lemma2_to64();
            assert(pow2(31) == 0x8000_0000);
            assert(pow2((32 - 1) as nat) == 0x8000_0000);
            assert(-0x8000_0000 <= v < 0x8000_0000);
        }
        let r: u32 = if v < 0 {
            (v + 0x1_0000_0000i64) as u32
        } else {
            v as u32
        };
        let ghost lt = leb_at(old(self).b@, old(self).pos as int, 32, true);
        assert(lt is Some);
        assert(lt.unwrap().0 == v);
        Ok(r)
    }

    fn s64(&mut self) -> (r: Result<u64, DecodeError>)
        requires
            old(self).wf(),
        ensures
            final(self).wf(),
            final(self).b == old(self).b,
            final(self).pos >= old(self).pos,
            r matches Err(e) ==> e.offset <= old(self).b@.len(),
            r is Ok ==> final(self).pos > old(self).pos,
            match r {
                Ok(v) => leb_at(old(self).b@, old(self).pos as int, 64, true) == Some(
                    (signed_of_u64(v), final(self).pos - old(self).pos),
                ),
                Err(e) => leb_at(old(self).b@, old(self).pos as int, 64, true) is None
                    && e.msg@ == leb_error_msg(leb_fail(old(self).b@, old(self).pos as int, 64, true).1),
            },
    {
        let v = self.sleb(64)?;
        proof {
            lemma2_to64();
            lemma2_to64_rest();
            assert(pow2(63) == 0x8000_0000_0000_0000);
            assert(pow2((64 - 1) as nat) == 0x8000_0000_0000_0000);
        }
        if v < 0 {
            Ok((v as i128 + 0x1_0000_0000_0000_0000i128) as u64)
        } else {
            Ok(v as u64)
        }
    }

    fn f32_bits(&mut self) -> (r: Result<u32, DecodeError>)
        requires
            old(self).wf(),
        ensures
            final(self).wf(),
            final(self).b == old(self).b,
            final(self).pos >= old(self).pos,
            r matches Err(e) ==> e.offset <= old(self).b@.len(),
            match r {
                Ok(v) => old(self).pos + 4 <= old(self).b@.len() && v == le_value(
                    old(self).b@.subrange(old(self).pos as int, old(self).pos + 4),
                ) && final(self).pos == old(self).pos + 4,
                Err(e) => old(self).pos + 4 > old(self).b@.len() && e.offset == old(self).pos
                    && e.msg@ == eof_msg(),
            },
    {
        let b = self.take(4)?;
        let v = le_bytes(b);
        proof {
            lemma2_to64();
        }
        Ok(v as u32)
    }

    fn f64_bits(&mut self) -> (r: Result<u64, DecodeError>)
        requires
            old(self).wf(),
        ensures
            final(self).wf(),
            final(self).b == old(self).b,
            final(self).pos >= old(self).pos,
            r matches Err(e) ==> e.offset <= old(self).b@.len(),
            match r {
                Ok(v) => old(self).pos + 8 <= old(self).b@.len() && v == le_value(
                    old(self).b@.subrange(old(self).pos as int, old(self).pos + 8),
                ) && final(self).pos == old(self).pos + 8,
                Err(e) => old(self).pos + 8 > old(self).b@.len() && e.offset == old(self).pos
                    && e.msg@ == eof_msg(),
            },
    {
        let b = self.take(8)?;
        let v = le_bytes(b);
        proof {
            lemma2_to64();
        }
        Ok(v as u64)
    }

    fn name(&mut self) -> (r: Result<String, DecodeError>)
        requires
            old(self).wf(),
        ensures
            final(self).wf(),
            final(self).b == old(self).b,
            final(self).pos >= old(self).pos,
            r matches Err(e) ==> e.offset <= old(self).b@.len(),
            r is Ok ==> final(self).pos > old(self).pos,
            r matches Ok(s) ==> name_at(old(self).b@, old(self).pos as int) == Some(
                (s@, final(self).pos - old(self).pos),
            ),
            r is Err ==> name_at(old(self).b@, old(self).pos as int) is None,
    {
        let len = self.u32()? as usize;
        let start = self.pos;
        let bytes = self.take(len)?;
        match utf8_text(bytes) {
            Some(s) => Ok(s),
            None => Err(self.err("malformed UTF-8 encoding")),
        }
    }

    fn valtype(&mut self) -> (r: Result<ValType, DecodeError>)
        requires
            old(self).wf(),
        ensures
            final(self).wf(),
            final(self).b == old(self).b,
            final(self).pos >= old(self).pos,
            r matches Err(e) ==> e.offset <= old(self).b@.len(),
            r is Ok ==> final(self).pos > old(self).pos,
            r matches Ok(t) ==> old(self).pos < old(self).b@.len() && valtype_code(
                old(self).b@[old(self).pos as int],
            ) == Some(t) && final(self).pos == old(self).pos + 1,
            r is Err ==> old(self).pos == old(self).b@.len() || valtype_code(
                old(self).b@[old(self).pos as int],
            ) is None,
    {
        let b = self.byte()?;
        self.valtype_of(b)
    }

    fn valtype_of(&self, b: u8) -> (r: Result<ValType, DecodeError>)
        ensures
            match r {
                Ok(t) => valtype_code(b) == Some(t),
                Err(e) => valtype_code(b) is None && e.offset == self.pos && e.msg@
                    == "malformed value type "@ + hex_lit(b as nat),
            },
    {
        match b {
            0x7f => Ok(ValType::I32),
            0x7e => Ok(ValType::I64),
            0x7d => Ok(ValType::F32),
            0x7c => Ok(ValType::F64),
            0x7b => Ok(ValType::V128),
            0x70 => Ok(ValType::FuncRef),
            0x6f => Ok(ValType::ExternRef),
            _ => Err(self.err_owned(with_hex("malformed value type ", b as u64))),
        }
    }

    fn reftype(&mut self) -> (r: Result<RefType, DecodeError>)
        requires
            old(self).wf(),
        ensures
            final(self).wf(),
            final(self).b == old(self).b,
            final(self).pos >= old(self).pos,
            r matches Err(e) ==> e.offset <= old(self).b@.len(),
            r is Ok ==> final(self).pos > old(self).pos,
            r matches Ok(t) ==> old(self).pos < old(self).b@.len() && reftype_code(
                old(self).b@[old(self).pos as int],
            ) == Some(t) && final(self).pos == old(self).pos + 1,
            r is Err ==> old(self).pos == old(self).b@.len() || reftype_code(
                old(self).b@[old(self).pos as int],
            ) is None,
    {
        match self.byte()? {
            0x70 => Ok(RefType::FuncRef),
            0x6f => Ok(RefType::ExternRef),
            b => Err(self.err_owned(with_hex("malformed reference type ", b as u64))),
        }
    }

    fn limits(&mut self) -> (r: Result<Limits, DecodeError>)
        requires
            old(self).wf(),
        ensures
            final(self).wf(),
            final(self).b == old(self).b,
            final(self).pos >= old(self).pos,
            r matches Err(e) ==> e.offset <= old(self).b@.len(),
            r is Ok ==> final(self).pos > old(self).pos,
            r matches Ok(l) ==> limits_at(old(self).b@, old(self).pos as int) == Some(
                (l, final(self).pos - old(self).pos),
            ),
            r is Err ==> limits_at(old(self).b@, old(self).pos as int) is None,
    {
        let start = self.pos;
        match self.byte()? {
            0x00 => {
                let min = self.u32()?;
                Ok(Limits { min, max: None })
            },
            0x01 => {
                let min = self.u32()?;
                let max = self.u32()?;
                Ok(Limits { min, max: Some(max) })
            },
            b => Err(self.err_owned(with_hex("malformed limits flag ", b as u64))),
        }
    }

    fn tabletype(&mut self) -> (r: Result<TableType, DecodeError>)
        requires
            old(self).wf(),
        ensures
            final(self).wf(),
            final(self).b == old(self).b,
            final(self).pos >= old(self).pos,
            r matches Err(e) ==> e.offset <= old(self).b@.len(),
            r is Ok ==> final(self).pos > old(self).pos,
            r matches Ok(t) ==> old(self).pos < old(self).b@.len() && reftype_code(
                old(self).b@[old(self).pos as int],
            ) == Some(t.elem) && limits_at(old(self).b@, old(self).pos + 1) == Some(
                (t.limits, final(self).pos - old(self).pos - 1),
            ),
    {
        let elem = self.reftype()?;
        let limits = self.limits()?;
        Ok(TableType { elem, limits })
    }

    fn memtype(&mut self) -> (r: Result<MemType, DecodeError>)
        requires
            old(self).wf(),
        ensures
            final(self).wf(),
            final(self).b == old(self).b,
            final(self).pos >= old(self).pos,
            r matches Err(e) ==> e.offset <= old(self).b@.len(),
            r is Ok ==> final(self).pos > old(self).pos,
            r matches Ok(t) ==> limits_at(old(self).b@, old(self).pos as int) == Some(
                (t.limits, final(self).pos - old(self).pos),
            ),
            r is Err ==> limits_at(old(self).b@, old(self).pos as int) is None,
    {
        Ok(MemType { limits: self.limits()? })
    }

    fn globaltype(&mut self) -> (r: Result<GlobalType, DecodeError>)
        requires
            old(self).wf(),
        ensures
            final(self).wf(),
            final(self).b == old(self).b,
            final(self).pos >= old(self).pos,
            r matches Err(e) ==> e.offset <= old(self).b@.len(),
            r is Ok ==> final(self).pos > old(self).pos,
            r matches Ok(g) ==> old(self).pos + 2 == final(self).pos && valtype_code(
                old(self).b@[old(self).pos as int],
            ) == Some(g.val) && old(self).b@[old(self).pos + 1] == (if g.mutable {
                1u8
            } else {
                0u8
            }),
    {
        let val = self.valtype()?;
        let mutable = match self.byte()? {
            0x00 => false,
            0x01 => true,
            b => return Err(self.err_owned(with_hex("malformed mutability ", b as u64))),
        };
        Ok(GlobalType { val, mutable })
    }

    fn blocktype(&mut self) -> (r: Result<BlockType, DecodeError>)
        requires
            old(self).wf(),
        ensures
            final(self).wf(),
            final(self).b == old(self).b,
            final(self).pos >= old(self).pos,
            r matches Err(e) ==> e.offset <= old(self).b@.len(),
            r is Ok ==> final(self).pos > old(self).pos,
            r matches Ok(bt) ==> blocktype_at(old(self).b@, old(self).pos as int) == Some(
                (bt, final(self).pos - old(self).pos),
            ),
            r is Err ==> blocktype_at(old(self).b@, old(self).pos as int) is None,
    {
        match self.peek() {
            Some(0x40) => {
                self.pos = self.pos + 1;
                return Ok(BlockType::Empty);
            },
            Some(b) => {
                if let Ok(t) = self.valtype_of(b) {
                    self.pos = self.pos + 1;
                    return Ok(BlockType::Val(t));
                }
            },
            None => {},
        }
        let v = self.sleb(33)?;
        if v < 0 {
            return Err(self.err("malformed block type"));
        }
        proof {
            lemma2_to64();
        }
        Ok(BlockType::Type(v as u32))
    }

    fn memarg(&mut self) -> (r: Result<(u32, u32), DecodeError>)
        requires
            old(self).wf(),
        ensures
            final(self).wf(),
            final(self).b == old(self).b,
            final(self).pos >= old(self).pos,
            r matches Err(e) ==> e.offset <= old(self).b@.len(),
            r is Ok ==> final(self).pos > old(self).pos,
            r matches Ok((align, offset)) ==> memarg_at(old(self).b@, old(self).pos as int) == Some(
                (align, offset, final(self).pos - old(self).pos),
            ),
            r is Err ==> memarg_at(old(self).b@, old(self).pos as int) is None,
    {
        let align = self.u32()?;
        if align >= 32 {
            return Err(self.err("malformed memop flags"));
        }
        let offset = self.u32()?;
        Ok((align, offset))
    }

    /// Reads the `0x00` byte that some instructions require.
    fn zero_byte(&mut self) -> (r: Result<(), DecodeError>)
        requires
            old(self).wf(),
        ensures
            final(self).wf(),
            final(self).b == old(self).b,
            final(self).pos >= old(self).pos,
            r matches Err(e) ==> e.offset <= old(self).b@.len(),
            r is Ok <==> old(self).pos < old(self).b@.len() && old(self).b@[old(self).pos as int]
                == 0,
            r is Ok ==> final(self).pos == old(self).pos + 1,
            r is Err ==> final(self).pos == old(self).pos,
    {
        if self.byte()? != 0x00 {
            self.pos = self.pos - 1;
            return Err(self.err("zero byte expected"));
        }
        Ok(())
    }

    /// A 16-byte immediate.
    fn bytes16(&mut self) -> (r: Result<[u8; 16], DecodeError>)
        requires
            old(self).wf(),
        ensures
            final(self).wf(),
            final(self).b == old(self).b,
            final(self).pos >= old(self).pos,
            r matches Err(e) ==> e.offset <= old(self).b@.len(),
            r matches Ok(a) ==> old(self).pos + 16 <= old(self).b@.len() && a@ == old(self).b@.subrange(
                old(self).pos as int,
                old(self).pos + 16,
            ) && final(self).pos == old(self).pos + 16,
            r is Err ==> old(self).pos + 16 > old(self).b@.len(),
    {
        let b = self.take(16)?;
        let a = [
            b[0],
            b[1],
            b[2],
            b[3],
            b[4],
            b[5],
            b[6],
            b[7],
            b[8],
            b[9],
            b[10],
            b[11],
            b[12],
            b[13],
            b[14],
            b[15],
        ];
        assert(a@ =~= b@);
        Ok(a)
    }

    /// Decodes an instruction under the `0xfd` (SIMD) prefix.
    fn simd_instr(&mut self) -> (r: Result<Instr, DecodeError>)
        requires
            old(self).wf(),
        ensures
            final(self).wf(),
            final(self).b == old(self).b,
            final(self).pos >= old(self).pos,
            r matches Err(e) ==> e.offset <= old(self).b@.len(),
            r is Ok ==> final(self).pos > old(self).pos,
            r matches Ok(i) ==> !opens_or_closes(i) && !(i is MemoryInit) && !(i is DataDrop),
            r matches Ok(i) ==> (leb_at(old(self).b@, old(self).pos as int, 32, false) matches Some(l)
                && simd_encoding(old(self).b@, old(self).pos + l.1, l.0, i, final(self).pos as int)),
            r is Ok <==> (leb_at(old(self).b@, old(self).pos as int, 32, false) matches Some(l)
                && simd_immediates_fit(old(self).b@, old(self).pos + l.1, l.0)),
    {
        let sub = self.u32()?;
        if let Some(op) = simd_mem_op(sub) {
            proof {
                crate::opcodes::lemma_mem_lane_codes(op);
            }
            let (align, offset) = self.memarg()?;
            let lane = if mem_op_has_lane(op) {
                self.byte()?
            } else {
                0
            };
            return Ok(Instr::SimdMem { op, align, offset, lane });
        }
        if sub == 0x0c {
            let b = self.take(16)?;
            let v = le_bytes(b);
            return Ok(Instr::V128Const(v));
        }
        if sub == 0x0d {
            let lanes = self.bytes16()?;
            return Ok(Instr::Shuffle(lanes));
        }
        if let Some(op) = simd_lane_op(sub) {
            let lane = self.byte()?;
            return Ok(Instr::SimdLane { op, lane });
        }
        match simd_plain(sub) {
            Some(op) => Ok(Instr::Simd(op)),
            None => Err(self.err_owned(with_hex("illegal opcode 0xfd ", sub as u64))),
        }
    }

    /// Decodes an instruction under the `0xfc` prefix.
    fn misc_instr(&mut self, dc_used: &mut bool) -> (r: Result<Instr, DecodeError>)
        requires
            old(self).wf(),
        ensures
            final(self).wf(),
            final(self).b == old(self).b,
            final(self).pos >= old(self).pos,
            r matches Err(e) ==> e.offset <= old(self).b@.len(),
            r is Ok ==> final(self).pos > old(self).pos,
            *final(dc_used) == (*old(dc_used) || (r matches Ok(i) && (i is MemoryInit
                || i is DataDrop))),
            r matches Ok(i) ==> !opens_or_closes(i),
    {
        let sub = self.u32()?;
        if let Some(op) = sat_numop(sub) {
            return Ok(Instr::Num(op));
        }
        match sub {
            8 => {
                let data = self.u32()?;
                self.zero_byte()?;
                *dc_used = true;
                Ok(Instr::MemoryInit { data })
            },
            9 => {
                let data = self.u32()?;
                *dc_used = true;
                Ok(Instr::DataDrop { data })
            },
            10 => {
                self.zero_byte()?;
                self.zero_byte()?;
                Ok(Instr::MemoryCopy)
            },
            11 => {
                self.zero_byte()?;
                Ok(Instr::MemoryFill)
            },
            12 => {
                let elem = self.u32()?;
                let table = self.u32()?;
                Ok(Instr::TableInit { table, elem })
            },
            13 => Ok(Instr::ElemDrop { elem: self.u32()? }),
            14 => {
                let dst = self.u32()?;
                let src = self.u32()?;
                Ok(Instr::TableCopy { dst, src })
            },
            15 => Ok(Instr::TableGrow { table: self.u32()? }),
            16 => Ok(Instr::TableSize { table: self.u32()? }),
            17 => Ok(Instr::TableFill { table: self.u32()? }),
            _ => Err(self.err_owned(with_dec("illegal opcode 0xfc ", sub as u64))),
        }
    }

    /// Decodes one instruction other than `end` and `else`, whose opcode
    /// byte `op` has just been read.
    fn instr(&mut self, op: u8, dc_used: &mut bool) -> (r: Result<Instr, DecodeError>)
        requires
            old(self).wf(),
            op != 0x0b && op != 0x05,
        ensures
            final(self).wf(),
            final(self).b == old(self).b,
            final(self).pos >= old(self).pos,
            r matches Err(e) ==> e.offset <= old(self).b@.len(),
            *final(dc_used) == (*old(dc_used) || (r matches Ok(i) && (i is MemoryInit
                || i is DataDrop))),
            r matches Ok(i) ==> !(i is End) && !(i is Else),
            r matches Ok(Instr::Num(n)) ==> 0x45 <= op <= 0xc4 ==> crate::opcodes::numop_code(n) == op,
            r matches Ok(Instr::Block { end, .. }) ==> op == 0x02 && end == u32::MAX,
            r matches Ok(Instr::Loop { end, .. }) ==> op == 0x03 && end == u32::MAX,
            r matches Ok(Instr::If { else_, end, .. }) ==> op == 0x04 && end == u32::MAX && else_
                == u32::MAX,
            r is Ok && op == 0x02 ==> r->Ok_0 is Block,
            r is Ok && op == 0x03 ==> r->Ok_0 is Loop,
            r is Ok && op == 0x04 ==> r->Ok_0 is If,
    {
        let instr = match op {
            0x00 => Instr::Unreachable,
            0x01 => Instr::Nop,
            0x02 => Instr::Block { bt: self.blocktype()?, end: u32::MAX },
            0x03 => Instr::Loop { bt: self.blocktype()?, end: u32::MAX },
            0x04 => Instr::If { bt: self.blocktype()?, else_: u32::MAX, end: u32::MAX },
            0x0c => Instr::Br { depth: self.u32()? },
            0x0d => Instr::BrIf { depth: self.u32()? },
            0x0e => {
                let n = self.u32()?;
                let mut depths: Vec<u32> = Vec::new();
                let mut k: u32 = 0;
                while k < n
                    invariant
                        self.wf(),
                        self.b == old(self).b,
                        self.pos >= old(self).pos,
                        k <= n,
                    decreases n - k,
                {
                    depths.push(self.u32()?);
                    k = k + 1;
                }
                let default = self.u32()?;
                Instr::BrTable { depths, default }
            },
            0x0f => Instr::Return,
            0x10 => Instr::Call { func: self.u32()? },
            0x11 => {
                let ty = self.u32()?;
                let table = self.u32()?;
                Instr::CallIndirect { table, ty }
            },
            0x1a => Instr::Drop,
            0x1b => Instr::Select { ty: None },
            0x1c => {
                // The arity of a typed select is checked in validation.
                let n = self.u32()?;
                let mut tys: Vec<ValType> = Vec::new();
                let mut k: u32 = 0;
                while k < n
                    invariant
                        self.wf(),
                        self.b == old(self).b,
                        self.pos >= old(self).pos,
                        k <= n,
                    decreases n - k,
                {
                    tys.push(self.valtype()?);
                    k = k + 1;
                }
                Instr::SelectT { tys }
            },
            0x20 => Instr::LocalGet { idx: self.u32()? },
            0x21 => Instr::LocalSet { idx: self.u32()? },
            0x22 => Instr::LocalTee { idx: self.u32()? },
            0x23 => Instr::GlobalGet { idx: self.u32()? },
            0x24 => Instr::GlobalSet { idx: self.u32()? },
            0x25 => Instr::TableGet { table: self.u32()? },
            0x26 => Instr::TableSet { table: self.u32()? },
            0x28..=0x35 => {
                let (align, offset) = self.memarg()?;
                match load_op(op) {
                    Some(lop) => Instr::Load { op: lop, align, offset },
                    None => Instr::Nop,
                }
            },
            0x36..=0x3e => {
                let (align, offset) = self.memarg()?;
                match store_op(op) {
                    Some(sop) => Instr::Store { op: sop, align, offset },
                    None => Instr::Nop,
                }
            },
            0x3f => {
                self.zero_byte()?;
                Instr::MemorySize
            },
            0x40 => {
                self.zero_byte()?;
                Instr::MemoryGrow
            },
            0x41 => Instr::I32Const(self.s32()?),
            0x42 => Instr::I64Const(self.s64()?),
            0x43 => Instr::F32Const(self.f32_bits()?),
            0x44 => Instr::F64Const(self.f64_bits()?),
            0x45..=0xc4 => match plain_numop(op) {
                Some(n) => Instr::Num(n),
                None => {
                    return Err(
                        DecodeError {
                            offset: self.pos - 1,
                            msg: with_hex("illegal opcode ", op as u64),
                        },
                    )
                },
            },
            0xd0 => Instr::RefNull(self.reftype()?),
            0xd1 => Instr::RefIsNull,
            0xd2 => Instr::RefFunc { func: self.u32()? },
            0xfc => self.misc_instr(dc_used)?,
            0xfd => self.simd_instr()?,
            _ => return Err(self.err_owned(with_hex("illegal opcode ", op as u64))),
        };
        Ok(instr)
    }

    /// Decodes instructions up to and including the `end` that closes the
    /// outermost level, reading no further than `limit`; structure targets
    /// are resolved on the way.
    fn expr_until_end(&mut self, limit: usize, dc_used: &mut bool) -> (r: Result<Vec<Instr>, DecodeError>)
        requires
            old(self).wf(),
            limit <= old(self).b@.len(),
        ensures
            final(self).wf(),
            final(self).b == old(self).b,
            final(self).pos >= old(self).pos,
            r matches Err(e) ==> e.offset <= old(self).b@.len(),
            r matches Ok(v) ==> v@.len() >= 1 && v@.last() is End && final(self).pos <= limit
                && v@.len() <= final(self).pos - old(self).pos,
            r matches Ok(v) ==> targets_resolved(v@),
            *old(dc_used) ==> *final(dc_used),
    {
        let start = self.pos;
        let mut out: Vec<Instr> = Vec::new();
        // Indices of the open block, loop and if instructions.
        let mut open: Vec<usize> = Vec::new();
        loop
            invariant
                self.wf(),
                self.b == old(self).b,
                limit <= self.b@.len(),
                start == old(self).pos,
                self.pos >= start,
                out@.len() <= self.pos - start,
                forall|k: int| 0 <= k < open@.len() ==> open@[k] < out@.len(),
                structure_inv(out@, open@),
                nest_inv(out@, open@),
                *old(dc_used) ==> *dc_used,
            decreases self.b@.len() - self.pos,
        {
            if self.pos >= limit {
                return Err(self.eof());
            }
            let op = self.byte()?;
            let ghost v0 = out@;
            let ghost o0 = open@;
            if op == 0x0b {
                out.push(Instr::End);
                if open.len() == 0 {
                    proof {
                        lemma_close_body(v0, o0);
                    }
                    return Ok(out);
                }
                let opener = open.pop().unwrap();
                let here = out.len() as u32;
                let (kind, bt0, else0) = match &out[opener] {
                    Instr::Block { bt, .. } => (0u8, *bt, 0u32),
                    Instr::Loop { bt, .. } => (1u8, *bt, 0u32),
                    Instr::If { bt, else_, .. } => (2u8, *bt, *else_),
                    _ => (3u8, BlockType::Empty, 0u32),
                };
                if kind == 0 {
                    out.set(opener, Instr::Block { bt: bt0, end: here });
                } else if kind == 1 {
                    out.set(opener, Instr::Loop { bt: bt0, end: here });
                } else if kind == 2 {
                    if else0 != u32::MAX {
                        out.set(opener, Instr::If { bt: bt0, else_: else0, end: here });
                        if else0 >= 1 && ((else0 - 1) as usize) < out.len() {
                            let e = (else0 - 1) as usize;
                            let is_else = match &out[e] {
                                Instr::Else { .. } => true,
                                _ => false,
                            };
                            if is_else {
                                out.set(e, Instr::Else { end: here });
                            }
                        }
                    } else {
                        out.set(opener, Instr::If { bt: bt0, else_: here, end: here });
                    }
                }
                proof {
                    let p = opener as int;
                    assert(open_else_ok(v0, o0, o0.len() - 1));
                    assert(unresolved(v0[p]));
                    let has_else = kind == 2 && else0 != u32::MAX;
                    let e = else0 - 1;
                    if has_else {
                        assert(pending_else(v0, e));
                    }
                    assert forall|i: int| 0 <= i < v0.len() && i != p && (!has_else || i != e) implies #[trigger] out@[i] == v0[i] by {}
                    lemma_close_block(v0, o0, out@, has_else, e);
                    lemma_nest_close(v0, o0, out@, has_else, e);
                }
                continue;
            }
            if op == 0x05 {
                // `else` must close the first arm of the innermost `if`.
                if open.len() == 0 {
                    return Err(self.err("misplaced else"));
                }
                let opener = open[open.len() - 1];
                let here = out.len() as u32 + 1;
                let ok = match &out[opener] {
                    Instr::If { else_, .. } => *else_ == u32::MAX,
                    _ => false,
                };
                if !ok {
                    return Err(self.err("misplaced else"));
                }
                let (bt0, end0) = match &out[opener] {
                    Instr::If { bt, end, .. } => (*bt, *end),
                    _ => (BlockType::Empty, 0u32),
                };
                out.set(opener, Instr::If { bt: bt0, else_: here, end: end0 });
                out.push(Instr::Else { end: u32::MAX });
                proof {
                    lemma_open_else(v0, o0, bt0, end0);
                    lemma_nest_open_else(v0, o0, bt0, end0);
                }
                continue;
            }
            let opens = op == 0x02 || op == 0x03 || op == 0x04;
            let here = out.len();
            let instr = self.instr(op, dc_used)?;
            out.push(instr);
            if opens {
                open.push(here);
                proof {
                    lemma_push_opener(v0, o0, instr);
                    lemma_nest_opener(v0, o0, instr);
                }
            } else {
                proof {
                    lemma_push_plain(v0, o0, instr);
                    lemma_nest_plain(v0, o0, instr);
                }
            }
        }
    }

    fn const_expr(&mut self) -> (r: Result<ConstExpr, DecodeError>)
        requires
            old(self).wf(),
        ensures
            final(self).wf(),
            final(self).b == old(self).b,
            final(self).pos >= old(self).pos,
            r matches Err(e) ==> e.offset <= old(self).b@.len(),
            r matches Ok(e) ==> e.instrs@.len() >= 1 && e.instrs@.last() is End,
    {
        // Initializers use the full instruction grammar; constness is a
        // validation rule.
        let mut dc_used = false;
        let limit = self.b.len();
        let instrs = self.expr_until_end(limit, &mut dc_used)?;
        Ok(ConstExpr { instrs })
    }

    fn elem(&mut self) -> (r: Result<Elem, DecodeError>)
        requires
            old(self).wf(),
        ensures
            final(self).wf(),
            final(self).b == old(self).b,
            final(self).pos >= old(self).pos,
            r matches Err(e) ==> e.offset <= old(self).b@.len(),
            r matches Ok(e) ==> leb_at(old(self).b@, old(self).pos as int, 32, false) matches Some(
                l,
            ) && 0 <= l.0 <= 7 && (e.mode is Active <==> l.0 % 2 == 0) && (e.mode is Declarative
                <==> (l.0 == 3 || l.0 == 7)) && (e.mode is Passive <==> (l.0 == 1 || l.0 == 5)) && (
            l.0 < 4 ==> e.ty == RefType::FuncRef) && (l.0 % 4 == 0 ==> e.ty == RefType::FuncRef),
    {
        let flags = self.u32()?;
        if flags > 7 {
            return Err(self.err("malformed element segment kind"));
        }
        let active = flags % 2 == 0;
        let explicit_idx = (flags / 2) % 2 == 1;
        let use_exprs = flags >= 4;
        let table = if active && explicit_idx {
            self.u32()?
        } else {
            0
        };
        let offset = if active {
            Some(self.const_expr()?)
        } else {
            None
        };
        let ty = if flags % 4 != 0 {
            // A kind or type byte is present.
            if use_exprs {
                self.reftype()?
            } else {
                match self.byte()? {
                    0x00 => RefType::FuncRef,
                    b => return Err(self.err_owned(with_hex("malformed element kind ", b as u64))),
                }
            }
        } else {
            RefType::FuncRef
        };
        let n = self.u32()?;
        let mut init: Vec<ConstExpr> = Vec::new();
        let mut k: u32 = 0;
        while k < n
            invariant
                self.wf(),
                self.b == old(self).b,
                self.pos >= old(self).pos,
                k <= n,
            decreases n - k,
        {
            if use_exprs {
                init.push(self.const_expr()?);
            } else {
                let f = self.u32()?;
                init.push(ConstExpr { instrs: vec![Instr::RefFunc { func: f }] });
            }
            k = k + 1;
        }
        let mode = match offset {
            Some(offset) => ElemMode::Active { table, offset },
            None => if explicit_idx {
                ElemMode::Declarative
            } else {
                ElemMode::Passive
            },
        };
        Ok(Elem { ty, init, mode })
    }

    fn data(&mut self) -> (r: Result<Data, DecodeError>)
        requires
            old(self).wf(),
        ensures
            final(self).wf(),
            final(self).b == old(self).b,
            final(self).pos >= old(self).pos,
            r matches Err(e) ==> e.offset <= old(self).b@.len(),
            r matches Ok(d) ==> leb_at(old(self).b@, old(self).pos as int, 32, false) matches Some(
                l,
            ) && 0 <= l.0 <= 2 && (d.mode is Passive <==> l.0 == 1) && (l.0 == 0 ==> (d.mode matches DataMode::Active { mem, .. } && mem == 0)),
    {
        let flags = self.u32()?;
        match flags {
            0 => {
                let offset = self.const_expr()?;
                let len = self.u32()? as usize;
                let bytes = copy_bytes(self.take(len)?);
                Ok(Data { bytes, mode: DataMode::Active { mem: 0, offset } })
            },
            1 => {
                let len = self.u32()? as usize;
                let bytes = copy_bytes(self.take(len)?);
                Ok(Data { bytes, mode: DataMode::Passive })
            },
            2 => {
                let mem = self.u32()?;
                let offset = self.const_expr()?;
                let len = self.u32()? as usize;
                let bytes = copy_bytes(self.take(len)?);
                Ok(Data { bytes, mode: DataMode::Active { mem, offset } })
            },
            _ => Err(self.err("malformed data segment kind")),
        }
    }

    fn code(&mut self, dc_used: &mut bool) -> (r: Result<Code, DecodeError>)
        requires
            old(self).wf(),
        ensures
            final(self).wf(),
            final(self).b == old(self).b,
            final(self).pos >= old(self).pos,
            r matches Err(e) ==> e.offset <= old(self).b@.len(),
            r matches Ok(c) ==> c.body@.len() >= 1 && c.body@.last() is End && c.locals@.len()
                <= MAX_LOCALS,
            r matches Ok(c) ==> targets_resolved(c.body@),
            r matches Ok(c) ==> leb_at(old(self).b@, old(self).pos as int, 32, false) matches Some(
                l,
            ) && final(self).pos == old(self).pos + l.1 + l.0,
            *old(dc_used) ==> *final(dc_used),
    {
        let size = self.u32()? as usize;
        if self.b.len() - self.pos < size {
            return Err(self.eof());
        }
        let end = self.pos + size;
        let nlocals = self.u32()?;
        let mut locals: Vec<ValType> = Vec::new();
        let mut total: u64 = 0;
        let mut k: u32 = 0;
        while k < nlocals
            invariant
                self.wf(),
                self.b == old(self).b,
                self.pos >= old(self).pos,
                k <= nlocals,
                total == locals@.len(),
                total <= MAX_LOCALS,
            decreases nlocals - k,
        {
            let count = self.u32()?;
            let ty = self.valtype()?;
            total = total + count as u64;
            if total > MAX_LOCALS {
                return Err(self.err("too many locals"));
            }
            let mut c: u32 = 0;
            while c < count
                invariant
                    c <= count,
                    locals@.len() + (count - c) == total,
                decreases count - c,
            {
                locals.push(ty);
                c = c + 1;
            }
            k = k + 1;
        }
        let body = self.expr_until_end(end, dc_used)?;
        if self.pos != end {
            return Err(self.err("section size mismatch (code entry)"));
        }
        Ok(Code { locals, body })
    }

    /// The ordering rank of a known section id (custom sections rank 0 and
    /// may appear anywhere; data count comes between import-related
    /// sections and code).
    fn section_rank(id: u8) -> (r: Option<u8>)
        ensures
            r is Some <==> (id <= 12),
            r matches Some(k) ==> k == section_rank_of(id),
    {
        match id {
            0 => Some(0),
            1 => Some(1),
            2 => Some(2),
            3 => Some(3),
            4 => Some(4),
            5 => Some(5),
            6 => Some(6),
            7 => Some(7),
            8 => Some(8),
            9 => Some(9),
            12 => Some(10),
            10 => Some(11),
            11 => Some(12),
            _ => None,
        }
    }

    #[verifier::loop_isolation(false)]
    #[verifier::rlimit(100)]
    #[verifier::spinoff_prover]
    fn module(&mut self) -> (r: Result<Module, DecodeError>)
        requires
            old(self).wf(),
            old(self).pos == 0,
        ensures
            final(self).wf(),
            final(self).b == old(self).b,
            module_header_outcome(old(self).b@, r),
            r matches Ok(m) ==> m.funcs@.len() == m.codes@.len(),
            r is Ok ==> sections_ordered(old(self).b@, 8, 0),
            r matches Ok(m) ==> forall|k: int| 0 <= k < m.codes@.len() ==> targets_resolved(#[trigger] m.codes@[k].body@),
            r matches Ok(m) ==> (old(self).b@.len() == 8 ==> module_is_empty(m)),
            r matches Ok(m) ==> (section_lead(old(self).b@, 8, 12) matches Some(n) ==> m.datas@.len() == n),
            r matches Ok(m) ==> (section_found(old(self).b@, 8, 1) ==> section_lead(old(self).b@, 8, 1) == Some(m.types@.len())),
            r matches Ok(m) ==> (!section_found(old(self).b@, 8, 1) ==> m.types@.len() == 0),
            r matches Ok(m) ==> forall|k: int| 0 <= k < m.codes@.len() ==> (#[trigger] m.codes@[k]).locals@.len() <= MAX_LOCALS,
            r matches Err(e) ==> e.offset <= old(self).b@.len(),
            old(self).b@.len() >= 8 && old(self).b@.take(8) == seq![0u8, 0x61, 0x73, 0x6d, 1, 0, 0, 0]
                && custom_sections_only(old(self).b@, 8) ==> r is Ok,
    {
        let magic = match self.take(4) {
            Ok(s) => s,
            Err(_) => return Err(DecodeError { offset: 0, msg: text("unexpected end") }),
        };
        if !(magic[0] == 0 && magic[1] == 0x61 && magic[2] == 0x73 && magic[3] == 0x6d) {
            proof {
                assert(self.b@.take(4) != seq![0u8, 0x61, 0x73, 0x6d]) by {
                    assert(self.b@.take(4)[0] == magic[0]);
                    assert(self.b@.take(4)[1] == magic[1]);
                    assert(self.b@.take(4)[2] == magic[2]);
                    assert(self.b@.take(4)[3] == magic[3]);
                }
            }
            return Err(DecodeError { offset: 0, msg: text("magic header not detected") });
        }
        assert(self.b@.take(4) =~= seq![0u8, 0x61, 0x73, 0x6d]);
        let version = match self.take(4) {
            Ok(s) => s,
            Err(_) => return Err(DecodeError { offset: 4, msg: text("unexpected end") }),
        };
        if !(version[0] == 1 && version[1] == 0 && version[2] == 0 && version[3] == 0) {
            proof {
                assert(self.b@.subrange(4, 8) != seq![1u8, 0, 0, 0]) by {
                    assert(self.b@.subrange(4, 8)[0] == version[0]);
                    assert(self.b@.subrange(4, 8)[1] == version[1]);
                    assert(self.b@.subrange(4, 8)[2] == version[2]);
                    assert(self.b@.subrange(4, 8)[3] == version[3]);
                }
            }
            return Err(DecodeError { offset: 4, msg: text("unknown binary version") });
        }
        assert(self.b@.take(8) =~= seq![0u8, 0x61, 0x73, 0x6d, 1, 0, 0, 0]);
        assert(self.b@.subrange(4, 8) =~= seq![1u8, 0, 0, 0]);
        let ghost bytes = self.b@;
        proof {
            lemma_header_errors(bytes);
        }
        let mut m = Module {
            types: Vec::new(),
            imports: Vec::new(),
            funcs: Vec::new(),
            tables: Vec::new(),
            mems: Vec::new(),
            globals: Vec::new(),
            exports: Vec::new(),
            start: None,
            elems: Vec::new(),
            datas: Vec::new(),
            codes: Vec::new(),
        };
        let mut last_rank: u8 = 0;
        let mut func_types: Vec<u32> = Vec::new();
        let mut codes: Vec<Code> = Vec::new();
        let mut datacount: Option<u32> = None;
        let mut saw_code = false;
        let mut saw_data = false;
        let mut dc_used = false;
        let mut datas: Vec<Data> = Vec::new();
        let mut types: Vec<FuncType> = Vec::new();
        let mut saw_types = false;

        while self.pos < self.b.len()
            invariant
                self.wf(),
                self.b == old(self).b,
                self.pos >= 8,
                self.b@.take(8) == seq![0u8, 0x61, 0x73, 0x6d, 1, 0, 0, 0],
                saw_code ==> last_rank >= 11,
                saw_code ==> codes@.len() == func_types@.len(),
                !saw_code ==> codes@.len() == 0,
                forall|j: int| 0 <= j < codes@.len() ==> targets_resolved(#[trigger] codes@[j].body@),
                forall|j: int| 0 <= j < codes@.len() ==> (#[trigger] codes@[j]).locals@.len() <= MAX_LOCALS,
                (func_types@.len() > 0 || datacount is Some || dc_used || saw_data || saw_code)
                    ==> bytes.len() > 8,
                sections_ordered(bytes, self.pos as int, last_rank) ==> sections_ordered(bytes, 8, 0),
                bytes.len() == 8 ==> module_is_empty(m) && func_types@.len() == 0 && codes@.len() == 0 && datas@.len() == 0,
                saw_data ==> last_rank >= 12,
                datacount is Some ==> last_rank >= 10,
                saw_types ==> last_rank >= 1,
                saw_types ==> section_found(bytes, 8, 1) && section_lead(bytes, 8, 1) == Some(types@.len()),
                !saw_types ==> types@.len() == 0 && section_lead(bytes, 8, 1) == section_lead(bytes, self.pos as int, 1)
                    && section_found(bytes, 8, 1) == section_found(bytes, self.pos as int, 1),
                bytes.len() == 8 ==> types@.len() == 0,
                !saw_data ==> datas@.len() == 0,
                datacount matches Some(dc) ==> section_lead(bytes, 8, 12) == Some(dc as nat),
                datacount is None ==> section_lead(bytes, 8, 12) == section_lead(bytes, self.pos as int, 12),
                saw_data ==> (datacount matches Some(dc) ==> datas@.len() == dc),
                custom_sections_only(bytes, 8) ==> custom_sections_only(bytes, self.pos as int)
                    && func_types@.len() == 0 && datacount is None && !dc_used && !saw_data,
            decreases self.b@.len() - self.pos,
        {
            assert(bytes.len() > 8);
            let section_start = self.pos;
            let ghost last_before = last_rank;
            let id = self.byte()?;
            let size = self.u32()? as usize;
            let ghost after_size = self.pos;
            if self.b.len() - self.pos < size {
                // A section length that overruns the module.
                return Err(self.err("unexpected end of section or function"));
            }
            let end = self.pos + size;
            let rank = match Self::section_rank(id) {
                Some(k) => k,
                None => return Err(self.err("malformed section id")),
            };
            if id != 0 {
                if rank <= last_rank {
                    return Err(self.err("unexpected content after last section"));
                }
                last_rank = rank;
            }
            if id == 0 {
                // Custom section: the name must be well-formed; the content
                // is opaque but must stay within the declared size.
                let len = self.u32()? as usize;
                if self.pos > end || len > end - self.pos {
                    return Err(self.err("unexpected end"));
                }
                let bytes = self.take(len)?;
                if utf8_text(bytes).is_none() {
                    return Err(self.err("malformed UTF-8 encoding"));
                }
                self.pos = end;
            } else if id == 1 {
                let n = self.u32()?;
                proof {
                    assert(bytes[section_start as int] == 1);
                    assert(leb_at(bytes, section_start + 1, 32, false) == Some(
                        (size as int, after_size - (section_start + 1)),
                    ));
                    assert(section_lead(bytes, section_start as int, 1) == Some(n as nat));
                    assert(section_found(bytes, section_start as int, 1));
                }
                saw_types = true;
                let mut k: u32 = 0;
                while k < n
                    invariant
                        self.wf(),
                        self.b == old(self).b,
                        self.pos >= 8,
                        k <= n,
                        types@.len() == k,
                    decreases n - k,
                {
                    if self.byte()? != 0x60 {
                        self.pos = self.pos - 1;
                        return Err(self.err("malformed functype"));
                    }
                    let np = self.u32()?;
                    let mut params: Vec<ValType> = Vec::new();
                    let mut j: u32 = 0;
                    while j < np
                        invariant
                            self.wf(),
                            self.b == old(self).b,
                            self.pos >= 8,
                            j <= np,
                        decreases np - j,
                    {
                        params.push(self.valtype()?);
                        j = j + 1;
                    }
                    let nr = self.u32()?;
                    let mut results: Vec<ValType> = Vec::new();
                    let mut j: u32 = 0;
                    while j < nr
                        invariant
                            self.wf(),
                            self.b == old(self).b,
                            self.pos >= 8,
                            j <= nr,
                        decreases nr - j,
                    {
                        results.push(self.valtype()?);
                        j = j + 1;
                    }
                    types.push(FuncType { params, results });
                    k = k + 1;
                }
            } else if id == 2 {
                let n = self.u32()?;
                let mut k: u32 = 0;
                while k < n
                    invariant
                        self.wf(),
                        self.b == old(self).b,
                        self.pos >= 8,
                        k <= n,
                    decreases n - k,
                {
                    let module = self.name()?;
                    let name = self.name()?;
                    let desc = match self.byte()? {
                        0x00 => ImportDesc::Func(self.u32()?),
                        0x01 => ImportDesc::Table(self.tabletype()?),
                        0x02 => ImportDesc::Mem(self.memtype()?),
                        0x03 => ImportDesc::Global(self.globaltype()?),
                        b => return Err(self.err_owned(with_hex("malformed import kind ", b as u64))),
                    };
                    m.imports.push(Import { module, name, desc });
                    k = k + 1;
                }
            } else if id == 3 {
                let n = self.u32()?;
                let mut k: u32 = 0;
                while k < n
                    invariant
                        self.wf(),
                        self.b == old(self).b,
                        self.pos >= 8,
                        k <= n,
                    decreases n - k,
                {
                    func_types.push(self.u32()?);
                    k = k + 1;
                }
            } else if id == 4 {
                let n = self.u32()?;
                let mut k: u32 = 0;
                while k < n
                    invariant
                        self.wf(),
                        self.b == old(self).b,
                        self.pos >= 8,
                        k <= n,
                    decreases n - k,
                {
                    m.tables.push(self.tabletype()?);
                    k = k + 1;
                }
            } else if id == 5 {
                let n = self.u32()?;
                let mut k: u32 = 0;
                while k < n
                    invariant
                        self.wf(),
                        self.b == old(self).b,
                        self.pos >= 8,
                        k <= n,
                    decreases n - k,
                {
                    m.mems.push(self.memtype()?);
                    k = k + 1;
                }
            } else if id == 6 {
                let n = self.u32()?;
                let mut k: u32 = 0;
                while k < n
                    invariant
                        self.wf(),
                        self.b == old(self).b,
                        self.pos >= 8,
                        k <= n,
                    decreases n - k,
                {
                    let ty = self.globaltype()?;
                    let init = self.const_expr()?;
                    m.globals.push(Global { ty, init });
                    k = k + 1;
                }
            } else if id == 7 {
                let n = self.u32()?;
                let mut k: u32 = 0;
                while k < n
                    invariant
                        self.wf(),
                        self.b == old(self).b,
                        self.pos >= 8,
                        k <= n,
                    decreases n - k,
                {
                    let name = self.name()?;
                    let desc = match self.byte()? {
                        0x00 => ExportDesc::Func(self.u32()?),
                        0x01 => ExportDesc::Table(self.u32()?),
                        0x02 => ExportDesc::Mem(self.u32()?),
                        0x03 => ExportDesc::Global(self.u32()?),
                        b => return Err(self.err_owned(with_hex("malformed export kind ", b as u64))),
                    };
                    m.exports.push(Export { name, desc });
                    k = k + 1;
                }
            } else if id == 8 {
                m.start = Some(self.u32()?);
            } else if id == 9 {
                let n = self.u32()?;
                let mut k: u32 = 0;
                while k < n
                    invariant
                        self.wf(),
                        self.b == old(self).b,
                        self.pos >= 8,
                        k <= n,
                    decreases n - k,
                {
                    m.elems.push(self.elem()?);
                    k = k + 1;
                }
            } else if id == 12 {
                let dc = self.u32()?;
                proof {
                    assert(bytes[section_start as int] == 12);
                    assert(leb_at(bytes, section_start + 1, 32, false) == Some(
                        (size as int, after_size - (section_start + 1)),
                    ));
                    assert(section_lead(bytes, section_start as int, 12) == Some(dc as nat));
                }
                datacount = Some(dc);
            } else if id == 10 {
                saw_code = true;
                let n = self.u32()?;
                if n as usize != func_types.len() {
                    return Err(self.err("function and code section have inconsistent lengths"));
                }
                let mut k: u32 = 0;
                while k < n
                    invariant
                        self.wf(),
                        self.b == old(self).b,
                        self.pos >= 8,
                        k <= n,
                        codes@.len() == k,
                        forall|j: int| 0 <= j < codes@.len() ==> targets_resolved(#[trigger] codes@[j].body@),
                        forall|j: int| 0 <= j < codes@.len() ==> (#[trigger] codes@[j]).locals@.len() <= MAX_LOCALS,
                    decreases n - k,
                {
                    codes.push(self.code(&mut dc_used)?);
                    k = k + 1;
                }
            } else {
                saw_data = true;
                let n = self.u32()?;
                if let Some(dc) = datacount {
                    if dc != n {
                        return Err(self.err("data count and data section have inconsistent lengths"));
                    }
                }
                let mut k: u32 = 0;
                while k < n
                    invariant
                        self.wf(),
                        self.b == old(self).b,
                        self.pos >= 8,
                        k <= n,
                        datas@.len() == k,
                    decreases n - k,
                {
                    datas.push(self.data()?);
                    k = k + 1;
                }
            }
            if self.pos != end {
                return Err(self.err("section size mismatch"));
            }
            assert(sections_ordered(bytes, end as int, last_rank) ==> sections_ordered(
                bytes,
                section_start as int,
                last_before,
            ));
        }

        if func_types.len() != 0 && !saw_code {
            return Err(self.err("function and code section have inconsistent lengths"));
        }
        // memory.init and data.drop need the data count section for
        // single-pass validation. Without any data section the count is
        // legitimately absent, and the dangling segment index is left to
        // validation ("unknown data segment").
        if dc_used && datacount.is_none() && saw_data {
            return Err(self.err("data count section required"));
        }
        if let Some(dc) = datacount {
            if dc != 0 && !saw_data {
                return Err(self.err("data count and data section have inconsistent lengths"));
            }
        }
        m.funcs = func_types;
        m.codes = codes;
        m.datas = datas;
        m.types = types;
        Ok(m)
    }
}

/// `2^(7n)` for `n <= 10`.
fn pow128(n: usize) -> (r: u128)
    requires
        n <= 10,
    ensures
        r == pow2((7 * n) as nat),
{
    let mut r: u128 = 1;
    let mut j: usize = 0;
    proof {
        lemma2_to64();
    }
    while j < n
        invariant
            j <= n <= 10,
            r == pow2((7 * j) as nat),
        decreases n - j,
    {
        proof {
            lemma2_to64();
            lemma2_to64_rest();
            lemma_pow2_adds((7 * j) as nat, 7);
            assert((7 * j) as nat + 7 == (7 * (j + 1)) as nat);
            if j + 1 < 10 {
                lemma_pow2_strictly_increases((7 * (j + 1)) as nat, 70);
            }
            lemma_pow2_adds(64, 6);
        }
        r = r * 128;
        j = j + 1;
    }
    r
}

} // verus!
