//! The JSON the conformance runner reads (its commands and the value
//! objects they carry), the engine values those objects denote, and the
//! matching of actual results against expected ones.
use vstd::prelude::*;
use crate::bytes::{le_bytes, le_seq, le_value, lemma_le_seq_value, written, write_le};
use crate::runner::{
    arithmetic_nan32, arithmetic_nan64, canonical_nan32, canonical_nan64, debug_text, match_f32, match_f64,
    nan32_verdict, nan64_verdict, number, parse_dec, parse_u32, parse_u64, quoted, same_text,
};
use crate::simd::{extract_lane, lane, v128_bytes, width_ok};
use crate::store::{first_named, lemma_first_named};
use crate::text::{dec_digits, join, join3, text, with_dec};
use crate::values::Value;

verus! {

/// A JSON value; an object keeps its members in order.
pub enum Json {
    Null,
    Bool(bool),
    /// A number: `Some` where it is an integer that fits in `u64`.
    Num(Option<u64>),
    Str(String),
    Arr(Vec<Json>),
    Obj(Vec<(String, Json)>),
}

/// Member `key` of an object (the first one of that name).
pub open spec fn field_of(v: Json, key: Seq<char>) -> Option<Json> {
    match v {
        Json::Obj(members) => first_named(members@, key),
        _ => None,
    }
}

/// The string member `key` of an object (`None` where it is missing or
/// not a string).
pub open spec fn str_field_of(v: Json, key: Seq<char>) -> Option<Seq<char>> {
    match field_of(v, key) {
        Some(Json::Str(s)) => Some(s@),
        _ => None,
    }
}

/// Member `key` of an object.
pub fn field<'a>(v: &'a Json, key: &str) -> (r: Option<&'a Json>)
    ensures
        r matches Some(x) ==> field_of(*v, key@) == Some(*x),
        r is None ==> field_of(*v, key@) is None,
{
    match v {
        Json::Obj(members) => {
            let mut i: usize = 0;
            while i < members.len()
                invariant
                    i <= members@.len(),
                    *v == Json::Obj(*members),
                    forall|j: int| 0 <= j < i ==> #[trigger] members@[j].0@ != key@,
                decreases members@.len() - i,
            {
                if same_text(members[i].0.as_str(), key) {
                    proof {
                        lemma_first_named(members@, key@, i as int);
                    }
                    return Some(&members[i].1);
                }
                i = i + 1;
            }
            proof {
                lemma_first_named(members@, key@, members@.len() as int);
            }
            None
        },
        _ => None,
    }
}

/// The string member `key` of an object; a missing or non-string member is
/// an error naming the key.
pub fn str_field<'a>(v: &'a Json, key: &str) -> (r: Result<&'a str, String>)
    ensures
        str_field_of(*v, key@) matches Some(s) ==> (r matches Ok(x) && x@ == s),
        str_field_of(*v, key@) is None ==> (r matches Err(e) && e@ == "missing/non-string field "@ + debug_text(key@)),
{
    match field(v, key) {
        Some(Json::Str(s)) => Ok(s.as_str()),
        _ => {
            let e = join("missing/non-string field ", quoted(key).as_str());
            Err(e)
        },
    }
}

/// The number of lanes and their width in bytes for a v128 lane type.
pub open spec fn lane_shape_of(t: Seq<char>) -> Option<(nat, nat)> {
    if t == "i8"@ {
        Some((16nat, 1nat))
    } else if t == "i16"@ {
        Some((8nat, 2nat))
    } else if t == "i32"@ || t == "f32"@ {
        Some((4nat, 4nat))
    } else if t == "i64"@ || t == "f64"@ {
        Some((2nat, 8nat))
    } else {
        None
    }
}

/// The number a lane string denotes (0 where it is not one).
pub open spec fn lane_number(l: Json) -> nat {
    match l {
        Json::Str(s) => match parse_dec(s@, u64::MAX as nat) {
            Ok(n) => n,
            Err(_) => 0,
        },
        _ => 0,
    }
}

/// The message for the first lane from `i` on that is not a string of a
/// decimal `u64` (`None`: every one is).
pub open spec fn lanes_error(lanes: Seq<Json>, i: int) -> Option<Seq<char>>
    decreases lanes.len() - i,
{
    if i < 0 || i >= lanes.len() {
        None
    } else {
        match lanes[i] {
            Json::Str(s) => match number(s@, "u64"@, u64::MAX as nat) {
                Ok(_) => lanes_error(lanes, i + 1),
                Err(m) => Some(m),
            },
            _ => Some("v128 lane must be a string"@),
        }
    }
}

/// The message for a missing or non-string member `key`.
pub open spec fn missing_text(key: Seq<char>) -> Seq<char> {
    "missing/non-string field "@ + debug_text(key)
}

/// The string member `key`, or the message for its absence.
pub open spec fn str_member(v: Json, key: Seq<char>) -> Result<Seq<char>, Seq<char>> {
    match str_field_of(v, key) {
        Some(s) => Ok(s),
        None => Err(missing_text(key)),
    }
}

/// The message for a lane type that is not one.
pub open spec fn unknown_lane_text(t: Seq<char>) -> Seq<char> {
    "unknown v128 lane_type "@ + debug_text(t)
}

/// The message for `n` lanes where `count` are expected.
pub open spec fn lane_count_text(count: nat, n: nat) -> Seq<char> {
    "v128 expects "@ + dec_digits(count) + " lanes, got "@ + dec_digits(n)
}

/// The 16 bytes of the first `n` lanes packed little-endian, `w` bytes
/// each (each number reduced to its lane), the rest zero.
pub open spec fn packed(lanes: Seq<Json>, w: nat, n: int) -> Seq<u8>
    decreases n,
{
    if n <= 0 {
        Seq::new(16, |k: int| 0u8)
    } else {
        written(packed(lanes, w, n - 1), (n - 1) * w, le_seq(lane_number(lanes[n - 1]), w))
    }
}

/// Packing keeps the 16 bytes.
proof fn lemma_packed_len(lanes: Seq<Json>, w: nat, n: int)
    requires
        n * w <= 16,
    ensures
        packed(lanes, w, n).len() == 16,
    decreases n,
{
    if n > 0 {
        assert((n - 1) * w + w == n * w) by (nonlinear_arith);
        assert((n - 1) * w >= 0) by (nonlinear_arith)
            requires
                n > 0,
        ;
        lemma_packed_len(lanes, w, n - 1);
    }
}

/// The 16 bytes a v128 value object (a lane type and one decimal string
/// per lane) denotes, or the message for what is wrong with it.
pub open spec fn v128_object(v: Json) -> Result<Seq<u8>, Seq<char>> {
    match str_member(v, "lane_type"@) {
        Err(m) => Err(m),
        Ok(t) => match field_of(v, "value"@) {
            Some(Json::Arr(lanes)) => match lane_shape_of(t) {
                Some((count, w)) => if lanes@.len() == count {
                    match lanes_error(lanes@, 0) {
                        Some(m) => Err(m),
                        None => Ok(packed(lanes@, w, count as int)),
                    }
                } else {
                    Err(lane_count_text(count, lanes@.len()))
                },
                None => Err(unknown_lane_text(t)),
            },
            _ => Err("v128 value must be an array"@),
        },
    }
}

/// The number in member `"value"`, read as a `kind` up to `max`.
pub open spec fn value_number(v: Json, kind: Seq<char>, max: nat) -> Result<nat, Seq<char>> {
    match str_member(v, "value"@) {
        Err(m) => Err(m),
        Ok(s) => number(s, kind, max),
    }
}

/// The engine value a value object (`{"type": ..., "value": ...}`)
/// denotes, or the message for what is wrong with it: numbers are decimal
/// bit patterns, references are `"null"` or (for `externref`) a decimal
/// host identity, and a v128 is a lane type with its lanes.
pub open spec fn value_of(v: Json) -> Result<Value, Seq<char>> {
    match str_member(v, "type"@) {
        Err(m) => Err(m),
        Ok(ty) => if ty == "i32"@ {
            match value_number(v, "u32"@, u32::MAX as nat) {
                Ok(n) => Ok(Value::I32(n as u32)),
                Err(m) => Err(m),
            }
        } else if ty == "i64"@ {
            match value_number(v, "u64"@, u64::MAX as nat) {
                Ok(n) => Ok(Value::I64(n as u64)),
                Err(m) => Err(m),
            }
        } else if ty == "f32"@ {
            match value_number(v, "u32"@, u32::MAX as nat) {
                Ok(n) => Ok(Value::F32(n as u32)),
                Err(m) => Err(m),
            }
        } else if ty == "f64"@ {
            match value_number(v, "u64"@, u64::MAX as nat) {
                Ok(n) => Ok(Value::F64(n as u64)),
                Err(m) => Err(m),
            }
        } else if ty == "v128"@ {
            match v128_object(v) {
                Ok(b) => Ok(Value::V128(le_value(b) as u128)),
                Err(m) => Err(m),
            }
        } else if ty == "externref"@ {
            match str_member(v, "value"@) {
                Err(m) => Err(m),
                Ok(s) => if s == "null"@ {
                    Ok(Value::ExternRef(None))
                } else {
                    match number(s, "u32"@, u32::MAX as nat) {
                        Ok(n) => Ok(Value::ExternRef(Some(n as u32))),
                        Err(m) => Err(m),
                    }
                },
            }
        } else if ty == "funcref"@ {
            match str_member(v, "value"@) {
                Err(m) => Err(m),
                Ok(s) => if s == "null"@ {
                    Ok(Value::FuncRef(None))
                } else {
                    Err("non-null funcref argument unsupported: "@ + s)
                },
            }
        } else {
            Err("unknown value type "@ + debug_text(ty) + " (fail-closed)"@)
        },
    }
}

/// The engine value a value object denotes; any other shape is an error.
pub fn parse_value(v: &Json) -> (r: Result<Value, String>)
    ensures
        r matches Ok(x) ==> value_of(*v) == Ok::<Value, Seq<char>>(x),
        r matches Err(m) ==> value_of(*v) == Err::<Value, Seq<char>>(m@),
{
    proof {
        reveal_strlit("type");
        reveal_strlit("value");
        reveal_strlit("i32");
        reveal_strlit("i64");
        reveal_strlit("f32");
        reveal_strlit("f64");
        reveal_strlit("v128");
        reveal_strlit("externref");
        reveal_strlit("funcref");
        reveal_strlit("null");
    }
    let ty = str_field(v, "type")?;
    if same_text(ty, "i32") {
        Ok(Value::I32(parse_u32(str_field(v, "value")?)?))
    } else if same_text(ty, "i64") {
        Ok(Value::I64(parse_u64(str_field(v, "value")?)?))
    } else if same_text(ty, "f32") {
        Ok(Value::F32(parse_u32(str_field(v, "value")?)?))
    } else if same_text(ty, "f64") {
        Ok(Value::F64(parse_u64(str_field(v, "value")?)?))
    } else if same_text(ty, "v128") {
        Ok(Value::V128(parse_v128(v)?))
    } else if same_text(ty, "externref") {
        let s = str_field(v, "value")?;
        if same_text(s, "null") {
            Ok(Value::ExternRef(None))
        } else {
            Ok(Value::ExternRef(Some(parse_u32(s)?)))
        }
    } else if same_text(ty, "funcref") {
        let s = str_field(v, "value")?;
        if same_text(s, "null") {
            Ok(Value::FuncRef(None))
        } else {
            Err(join("non-null funcref argument unsupported: ", s))
        }
    } else {
        Err(join3("unknown value type ", quoted(ty).as_str(), " (fail-closed)"))
    }
}

/// The lane count and width of a lane type string.
fn lane_shape(t: &str) -> (r: Option<(usize, usize)>)
    ensures
        r is Some <==> lane_shape_of(t@) is Some,
        r matches Some(p) ==> lane_shape_of(t@) == Some((p.0 as nat, p.1 as nat)),
        r matches Some(p) ==> width_ok(p.1 as nat) && p.0 * p.1 == 16,
{
    proof {
        reveal_strlit("i8");
        reveal_strlit("i16");
        reveal_strlit("i32");
        reveal_strlit("f32");
        reveal_strlit("i64");
        reveal_strlit("f64");
    }
    if same_text(t, "i8") {
        Some((16, 1))
    } else if same_text(t, "i16") {
        Some((8, 2))
    } else if same_text(t, "i32") || same_text(t, "f32") {
        Some((4, 4))
    } else if same_text(t, "i64") || same_text(t, "f64") {
        Some((2, 8))
    } else {
        None
    }
}

/// The v128 a value object denotes.
fn parse_v128(v: &Json) -> (r: Result<u128, String>)
    ensures
        r matches Ok(b) ==> v128_object(*v) matches Ok(bytes) && b == le_value(bytes),
        r matches Err(m) ==> v128_object(*v) == Err::<Seq<u8>, Seq<char>>(m@),
{
    proof {
        reveal_strlit("lane_type");
        reveal_strlit("value");
    }
    let lane_type = str_field(v, "lane_type")?;
    let lanes = match field(v, "value") {
        Some(Json::Arr(a)) => a,
        _ => {
            return Err(text("v128 value must be an array"));
        },
    };
    let (count, width) = match lane_shape(lane_type) {
        Some(p) => p,
        None => {
            return Err(join("unknown v128 lane_type ", quoted(lane_type).as_str()));
        },
    };
    if lanes.len() != count {
        let a = with_dec("v128 expects ", count as u64);
        let b = join(a.as_str(), " lanes, got ");
        return Err(with_dec(b.as_str(), lanes.len() as u64));
    }
    let mut out: Vec<u8> = Vec::new();
    let mut k: usize = 0;
    while k < 16
        invariant
            k <= 16,
            out@ == Seq::new(k as nat, |j: int| 0u8),
        decreases 16 - k,
    {
        out.push(0u8);
        k = k + 1;
        assert(out@ =~= Seq::new(k as nat, |j: int| 0u8));
    }
    proof {
        lemma_packed_len(lanes@, width as nat, 0);
    }
    let mut i: usize = 0;
    while i < count
        invariant
            i <= count,
            count * width == 16,
            width_ok(width as nat),
            lanes@.len() == count,
            str_field_of(*v, "lane_type"@) == Some(lane_type@),
            field_of(*v, "value"@) == Some(Json::Arr(*lanes)),
            lane_shape_of(lane_type@) == Some((count as nat, width as nat)),
            out@ == packed(lanes@, width as nat, i as int),
            out@.len() == 16,
            lanes_error(lanes@, 0) == lanes_error(lanes@, i as int),
        decreases count - i,
    {
        let s = match &lanes[i] {
            Json::Str(s) => s.as_str(),
            _ => {
                return Err(text("v128 lane must be a string"));
            },
        };
        let n = parse_u64(s)?;
        proof {
            assert((i + 1) * width <= 16) by (nonlinear_arith)
                requires
                    i < count,
                    count * width == 16,
            ;
            assert(i * width + width == (i + 1) * width) by (nonlinear_arith);
            assert(lane_number(lanes@[i as int]) == n);
        }
        write_le(&mut out, i * width, n as u128, width);
        proof {
            lemma_packed_len(lanes@, width as nat, i + 1);
        }
        i = i + 1;
    }
    let b = le_bytes(out.as_slice());
    proof {
        lemma_le_seq_value(out@);
        assert(out@.len() == 16);
    }
    Ok(b)
}

/// How one expected lane string judges lane `i` of `w` bytes of `a`, for
/// lanes of type `t`: a NaN pattern for float lanes, exact bits otherwise
/// (else the message for what is wrong with it).
pub open spec fn lane_verdict(a: u128, t: Seq<char>, l: Json, w: nat, i: int) -> Result<bool, Seq<char>> {
    let bits = lane(a, w, i);
    match l {
        Json::Str(s) => if t == "f32"@ && (s@ == "nan:canonical"@ || s@ == "nan:arithmetic"@) {
            nan32_verdict(bits as u32, s@)
        } else if t == "f64"@ && (s@ == "nan:canonical"@ || s@ == "nan:arithmetic"@) {
            nan64_verdict(bits as u64, s@)
        } else {
            match number(s@, "u64"@, u64::MAX as nat) {
                Ok(n) => Ok(bits == n),
                Err(m) => Err(m),
            }
        },
        _ => Err("v128 lane must be a string"@),
    }
}

/// The lanes from `i` on judged in order: the first mismatch or bad lane
/// string decides.
pub open spec fn lanes_verdict(a: u128, t: Seq<char>, lanes: Seq<Json>, w: nat, i: int) -> Result<bool, Seq<char>>
    decreases lanes.len() - i,
{
    if i < 0 || i >= lanes.len() {
        Ok(true)
    } else {
        match lane_verdict(a, t, lanes[i], w, i) {
            Ok(true) => lanes_verdict(a, t, lanes, w, i + 1),
            other => other,
        }
    }
}

/// How an expected v128 object judges `a` (or the message for what is
/// wrong with the object).
pub open spec fn v128_verdict(a: u128, exp: Json) -> Result<bool, Seq<char>> {
    match str_member(exp, "lane_type"@) {
        Err(m) => Err(m),
        Ok(t) => match field_of(exp, "value"@) {
            Some(Json::Arr(lanes)) => match lane_shape_of(t) {
                Some((count, w)) => if lanes@.len() == count {
                    lanes_verdict(a, t, lanes@, w, 0)
                } else {
                    Err(lane_count_text(count, lanes@.len()))
                },
                None => Err(unknown_lane_text(t)),
            },
            _ => Err("v128 value must be an array"@),
        },
    }
}

/// How an expected-value object judges an actual result (or the message
/// for what is wrong with the object). A result of another type than the
/// expected one does not match; floats may be expected as NaN patterns.
pub open spec fn verdict(actual: Value, exp: Json) -> Result<bool, Seq<char>> {
    match str_member(exp, "type"@) {
        Err(m) => Err(m),
        Ok(t) => match actual {
            Value::I32(a) if t == "i32"@ => match value_number(exp, "u32"@, u32::MAX as nat) {
                Ok(n) => Ok(a == n),
                Err(m) => Err(m),
            },
            Value::I64(a) if t == "i64"@ => match value_number(exp, "u64"@, u64::MAX as nat) {
                Ok(n) => Ok(a == n),
                Err(m) => Err(m),
            },
            Value::F32(a) if t == "f32"@ => match str_member(exp, "value"@) {
                Err(m) => Err(m),
                Ok(s) => nan32_verdict(a, s),
            },
            Value::F64(a) if t == "f64"@ => match str_member(exp, "value"@) {
                Err(m) => Err(m),
                Ok(s) => nan64_verdict(a, s),
            },
            Value::V128(a) if t == "v128"@ => v128_verdict(a, exp),
            Value::ExternRef(a) if t == "externref"@ => match str_member(exp, "value"@) {
                Err(m) => Err(m),
                Ok(s) => if s == "null"@ {
                    Ok(a is None)
                } else {
                    match number(s, "u32"@, u32::MAX as nat) {
                        Ok(n) => Ok(a == Some(n as u32)),
                        Err(m) => Err(m),
                    }
                },
            },
            Value::FuncRef(a) if t == "funcref"@ => match str_member(exp, "value"@) {
                Err(m) => Err(m),
                Ok(s) => if s == "null"@ {
                    Ok(a is None)
                } else {
                    Err("non-null funcref expectation unsupported: "@ + s)
                },
            },
            _ => Ok(false),
        },
    }
}

/// Judges one actual result against one expected-value object.
pub fn match_expected(actual: &Value, exp: &Json) -> (r: Result<bool, String>)
    ensures
        r matches Ok(b) ==> verdict(*actual, *exp) == Ok::<bool, Seq<char>>(b),
        r matches Err(m) ==> verdict(*actual, *exp) == Err::<bool, Seq<char>>(m@),
{
    proof {
        reveal_strlit("type");
        reveal_strlit("value");
        reveal_strlit("i32");
        reveal_strlit("i64");
        reveal_strlit("f32");
        reveal_strlit("f64");
        reveal_strlit("v128");
        reveal_strlit("externref");
        reveal_strlit("funcref");
        reveal_strlit("null");
        reveal_strlit("nan:canonical");
        reveal_strlit("nan:arithmetic");
    }
    let ty = str_field(exp, "type")?;
    match actual {
        Value::I32(a) if same_text(ty, "i32") => Ok(*a == parse_u32(str_field(exp, "value")?)?),
        Value::I64(a) if same_text(ty, "i64") => Ok(*a == parse_u64(str_field(exp, "value")?)?),
        Value::F32(a) if same_text(ty, "f32") => match_f32(*a, str_field(exp, "value")?),
        Value::F64(a) if same_text(ty, "f64") => match_f64(*a, str_field(exp, "value")?),
        Value::V128(a) if same_text(ty, "v128") => match_v128(*a, exp),
        Value::ExternRef(a) if same_text(ty, "externref") => {
            let s = str_field(exp, "value")?;
            if same_text(s, "null") {
                Ok(a.is_none())
            } else {
                let n = parse_u32(s)?;
                Ok(match a {
                    Some(x) => *x == n,
                    None => false,
                })
            }
        },
        Value::FuncRef(a) if same_text(ty, "funcref") => {
            let s = str_field(exp, "value")?;
            if same_text(s, "null") {
                Ok(a.is_none())
            } else {
                Err(join("non-null funcref expectation unsupported: ", s))
            }
        },
        _ => Ok(false),
    }
}

/// Judges a v128 result lane by lane.
fn match_v128(actual: u128, exp: &Json) -> (r: Result<bool, String>)
    ensures
        r matches Ok(b) ==> v128_verdict(actual, *exp) == Ok::<bool, Seq<char>>(b),
        r matches Err(m) ==> v128_verdict(actual, *exp) == Err::<bool, Seq<char>>(m@),
{
    proof {
        reveal_strlit("lane_type");
        reveal_strlit("value");
        reveal_strlit("f32");
        reveal_strlit("f64");
        reveal_strlit("nan:canonical");
        reveal_strlit("nan:arithmetic");
    }
    let lane_type = str_field(exp, "lane_type")?;
    let lanes = match field(exp, "value") {
        Some(Json::Arr(a)) => a,
        _ => {
            return Err(text("v128 value must be an array"));
        },
    };
    let (count, width) = match lane_shape(lane_type) {
        Some(p) => p,
        None => {
            return Err(join("unknown v128 lane_type ", quoted(lane_type).as_str()));
        },
    };
    if lanes.len() != count {
        let a = with_dec("v128 expects ", count as u64);
        let b = join(a.as_str(), " lanes, got ");
        return Err(with_dec(b.as_str(), lanes.len() as u64));
    }
    let is_f32 = same_text(lane_type, "f32");
    let is_f64 = same_text(lane_type, "f64");
    let mut i: usize = 0;
    while i < count
        invariant
            i <= count,
            count * width == 16,
            width_ok(width as nat),
            lanes@.len() == count,
            is_f32 == (lane_type@ == "f32"@),
            is_f64 == (lane_type@ == "f64"@),
            str_field_of(*exp, "lane_type"@) == Some(lane_type@),
            field_of(*exp, "value"@) == Some(Json::Arr(*lanes)),
            lane_shape_of(lane_type@) == Some((count as nat, width as nat)),
            v128_verdict(actual, *exp) == lanes_verdict(actual, lane_type@, lanes@, width as nat, 0),
            lanes_verdict(actual, lane_type@, lanes@, width as nat, 0) == lanes_verdict(
                actual,
                lane_type@,
                lanes@,
                width as nat,
                i as int,
            ),
        decreases count - i,
    {
        let s = match &lanes[i] {
            Json::Str(s) => s.as_str(),
            _ => {
                return Err(text("v128 lane must be a string"));
            },
        };
        proof {
            assert(i < 16int / (width as int)) by (nonlinear_arith)
                requires
                    i < count,
                    count * width == 16,
                    width > 0,
            ;
        }
        let bits = extract_lane(actual, width, i);
        let nan = same_text(s, "nan:canonical") || same_text(s, "nan:arithmetic");
        let ok = if is_f32 && nan {
            match_f32(bits as u32, s)?
        } else if is_f64 && nan {
            match_f64(bits, s)?
        } else {
            bits == parse_u64(s)?
        };
        if !ok {
            return Ok(false);
        }
        i = i + 1;
    }
    Ok(true)
}

} // verus!
