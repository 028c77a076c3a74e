//! The coercion matrix: from a wire value and its backend type name to a
//! [`TaggedValue`].
//!
//! Reading a column happens in two steps. [`value_kind`] tells, from the type
//! name alone, which typed decode the column needs (integer arrays by their
//! exact element width). The caller performs that decode on the row and hands
//! the outcome back as a [`WireValue`]; [`coerce`] then settles the value,
//! including every fallback, without ever failing.
use vstd::prelude::*;
use vstd::utf8::{decode_utf8, valid_utf8};
use crate::text::{decimal, digit_char, push_char, push_decimal, push_digit, str_eq};
use crate::value::TaggedValue;

verus! {

/// The typed decode that a backend type name calls for. Integers and
/// floating-point numbers are decoded at their own width and then widened.
#[derive(Clone, Copy, Debug, PartialEq, Eq, Structural)]
pub enum ValueKind {
    Bool,
    Int2,
    Int4,
    Int8,
    Float4,
    Float8,
    Text,
    Uuid,
    Timestamp,
    Date,
    Money,
    Numeric,
    TextArray,
    Int2Array,
    Int4Array,
    Int8Array,
    Float4Array,
    Float8Array,
    BoolArray,
    JsonArray,
    Json,
    Other,
}

/// The kind of decode for a type name; the match is exact and case-sensitive.
pub open spec fn kind_of(t: Seq<char>) -> ValueKind {
    if t == "BOOL"@ {
        ValueKind::Bool
    } else if t == "INT2"@ {
        ValueKind::Int2
    } else if t == "INT4"@ {
        ValueKind::Int4
    } else if t == "INT8"@ {
        ValueKind::Int8
    } else if t == "FLOAT4"@ {
        ValueKind::Float4
    } else if t == "FLOAT8"@ {
        ValueKind::Float8
    } else if t == "TEXT"@ || t == "VARCHAR"@ || t == "CHAR"@ || t == "NAME"@ || t == "BPCHAR"@ {
        ValueKind::Text
    } else if t == "UUID"@ {
        ValueKind::Uuid
    } else if t == "TIMESTAMP"@ || t == "TIMESTAMPTZ"@ {
        ValueKind::Timestamp
    } else if t == "DATE"@ {
        ValueKind::Date
    } else if t == "MONEY"@ {
        ValueKind::Money
    } else if t == "NUMERIC"@ {
        ValueKind::Numeric
    } else if t == "VARCHAR[]"@ || t == "TEXT[]"@ || t == "CHAR[]"@ || t == "_varchar"@
        || t == "_text"@ || t == "_char"@ {
        ValueKind::TextArray
    } else if t == "INT2[]"@ || t == "_int2"@ {
        ValueKind::Int2Array
    } else if t == "INT4[]"@ || t == "_int4"@ {
        ValueKind::Int4Array
    } else if t == "INT8[]"@ || t == "_int8"@ {
        ValueKind::Int8Array
    } else if t == "FLOAT4[]"@ || t == "_float4"@ {
        ValueKind::Float4Array
    } else if t == "FLOAT8[]"@ || t == "_float8"@ {
        ValueKind::Float8Array
    } else if t == "BOOL[]"@ || t == "_bool"@ {
        ValueKind::BoolArray
    } else if t == "JSON[]"@ || t == "JSONB[]"@ || t == "_json"@ || t == "_jsonb"@ {
        ValueKind::JsonArray
    } else if t == "JSON"@ || t == "JSONB"@ {
        ValueKind::Json
    } else {
        ValueKind::Other
    }
}

/// Which typed decode a column of backend type `backend_type` needs.
pub fn value_kind(backend_type: &str) -> (k: ValueKind)
    ensures
        k == kind_of(backend_type@),
{
    let t = backend_type;
    if str_eq(t, "BOOL") {
        ValueKind::Bool
    } else if str_eq(t, "INT2") {
        ValueKind::Int2
    } else if str_eq(t, "INT4") {
        ValueKind::Int4
    } else if str_eq(t, "INT8") {
        ValueKind::Int8
    } else if str_eq(t, "FLOAT4") {
        ValueKind::Float4
    } else if str_eq(t, "FLOAT8") {
        ValueKind::Float8
    } else if str_eq(t, "TEXT") || str_eq(t, "VARCHAR") || str_eq(t, "CHAR") || str_eq(t, "NAME")
        || str_eq(t, "BPCHAR") {
        ValueKind::Text
    } else if str_eq(t, "UUID") {
        ValueKind::Uuid
    } else if str_eq(t, "TIMESTAMP") || str_eq(t, "TIMESTAMPTZ") {
        ValueKind::Timestamp
    } else if str_eq(t, "DATE") {
        ValueKind::Date
    } else if str_eq(t, "MONEY") {
        ValueKind::Money
    } else if str_eq(t, "NUMERIC") {
        ValueKind::Numeric
    } else if str_eq(t, "VARCHAR[]") || str_eq(t, "TEXT[]") || str_eq(t, "CHAR[]") || str_eq(
        t,
        "_varchar",
    ) || str_eq(t, "_text") || str_eq(t, "_char") {
        ValueKind::TextArray
    } else if str_eq(t, "INT2[]") || str_eq(t, "_int2") {
        ValueKind::Int2Array
    } else if str_eq(t, "INT4[]") || str_eq(t, "_int4") {
        ValueKind::Int4Array
    } else if str_eq(t, "INT8[]") || str_eq(t, "_int8") {
        ValueKind::Int8Array
    } else if str_eq(t, "FLOAT4[]") || str_eq(t, "_float4") {
        ValueKind::Float4Array
    } else if str_eq(t, "FLOAT8[]") || str_eq(t, "_float8") {
        ValueKind::Float8Array
    } else if str_eq(t, "BOOL[]") || str_eq(t, "_bool") {
        ValueKind::BoolArray
    } else if str_eq(t, "JSON[]") || str_eq(t, "JSONB[]") || str_eq(t, "_json") || str_eq(
        t,
        "_jsonb",
    ) {
        ValueKind::JsonArray
    } else if str_eq(t, "JSON") || str_eq(t, "JSONB") {
        ValueKind::Json
    } else {
        ValueKind::Other
    }
}


/// What the typed decode named by a [`ValueKind`] produced for one column.
///
/// `None` in a variant means that the decode was tried and failed.
pub enum WireValue {
    /// SQL `NULL`, or a column whose raw value could not be read.
    Null,
    Bool(Option<bool>),
    /// An integer of any width, widened.
    Int(Option<i64>),
    /// The IEEE-754 bit pattern of the decoded number, widened to binary64.
    Float(Option<u64>),
    /// Text, and the textual forms of a uuid, a date or an exact decimal.
    Text(Option<String>),
    /// The time-zone-aware decode, then the naive one.
    Timestamp { aware: Option<String>, naive: Option<String> },
    /// The raw binary representation of a currency value.
    Money(Option<Vec<u8>>),
    TextArray(Option<Vec<String>>),
    /// Elements decoded at the column's own width, then widened.
    IntArray(Option<Vec<i64>>),
    FloatArray(Option<Vec<u64>>),
    BoolArray(Option<Vec<bool>>),
    /// Each element as its JSON text.
    JsonArray(Option<Vec<String>>),
    Json(Option<String>),
    /// A plain textual decode, and the raw bytes, of an unrecognised type.
    Other { text: Option<String>, bytes: Option<Vec<u8>> },
}

/// 256 to the power `n`.
pub open spec fn pow256(n: nat) -> nat
    decreases n,
{
    if n == 0 { 1 } else { 256 * pow256((n - 1) as nat) }
}

/// The unsigned big-endian integer that `b` spells.
pub open spec fn be_nat(b: Seq<u8>) -> nat
    decreases b.len(),
{
    if b.len() == 0 { 0 } else { (be_nat(b.drop_last()) * 256 + b.last()) as nat }
}

/// The signed (two's complement) 64-bit big-endian integer that 8 bytes spell.
pub open spec fn be_i64(b: Seq<u8>) -> int {
    if be_nat(b) >= 0x8000_0000_0000_0000 {
        be_nat(b) - 0x1_0000_0000_0000_0000
    } else {
        be_nat(b) as int
    }
}

/// The magnitude of `x`.
pub open spec fn abs(x: int) -> nat {
    if x < 0 { (-x) as nat } else { x as nat }
}

/// A currency amount given in minor units, as `$` and a sign, the whole
/// units, and two fractional digits: `12345` is `$123.45`, `-5` is `$-0.05`.
pub open spec fn money_text(cents: int) -> Seq<char> {
    seq!['$'] + (if cents < 0 { seq!['-'] } else { Seq::empty() }) + decimal(abs(cents) / 100)
        + seq!['.', digit_char((abs(cents) % 100) / 10), digit_char(abs(cents) % 10)]
}

/// The diagnostic for a currency value of the wrong byte length.
pub open spec fn bad_money_text(len: nat) -> Seq<char> {
    "Invalid money len: "@ + decimal(len)
}

/// The placeholder for a present value of type `t` that could not be decoded.
pub open spec fn undecodable_text(t: Seq<char>) -> Seq<char> {
    seq!['<'] + t + seq!['>']
}

/// `r` is a `Text` whose characters are `s`.
pub open spec fn is_text(r: TaggedValue, s: Seq<char>) -> bool {
    r matches TaggedValue::Text(x) && x@ == s
}

/// `r` is an `Array` of `n` elements, element `i` being `f(i)`.
pub open spec fn is_array_of(r: TaggedValue, n: int, f: spec_fn(int) -> TaggedValue) -> bool {
    r matches TaggedValue::Array(a) && a@.len() == n && forall|i: int| 0 <= i < n ==> a@[i] == f(i)
}

/// What a wire value of backend type `t` coerces to.
pub open spec fn coerces_to(t: Seq<char>, w: WireValue, r: TaggedValue) -> bool {
    match w {
        WireValue::Null => r == TaggedValue::Null,
        WireValue::Bool(v) => r == match v { Some(b) => TaggedValue::Bool(b), None => TaggedValue::Null },
        WireValue::Int(v) => r == match v { Some(x) => TaggedValue::Int(x), None => TaggedValue::Null },
        WireValue::Float(v) => r == match v { Some(x) => TaggedValue::Float(x), None => TaggedValue::Null },
        WireValue::Text(v) => r == match v { Some(s) => TaggedValue::Text(s), None => TaggedValue::Null },
        WireValue::Json(v) => r == match v { Some(s) => TaggedValue::Structured(s), None => TaggedValue::Null },
        WireValue::Timestamp { aware, naive } => r == match aware {
            Some(s) => TaggedValue::Text(s),
            None => match naive { Some(s) => TaggedValue::Text(s), None => TaggedValue::Null },
        },
        WireValue::Money(v) => match v {
            None => r == TaggedValue::Null,
            Some(b) => if b@.len() == 8 {
                is_text(r, money_text(be_i64(b@)))
            } else {
                is_text(r, bad_money_text(b@.len()))
            },
        },
        WireValue::TextArray(v) => match v {
            None => r == TaggedValue::Null,
            Some(a) => is_array_of(r, a@.len() as int, |i: int| TaggedValue::Text(a@[i])),
        },
        WireValue::IntArray(v) => match v {
            None => r == TaggedValue::Null,
            Some(a) => is_array_of(r, a@.len() as int, |i: int| TaggedValue::Int(a@[i])),
        },
        WireValue::FloatArray(v) => match v {
            None => r == TaggedValue::Null,
            Some(a) => is_array_of(r, a@.len() as int, |i: int| TaggedValue::Float(a@[i])),
        },
        WireValue::BoolArray(v) => match v {
            None => r == TaggedValue::Null,
            Some(a) => is_array_of(r, a@.len() as int, |i: int| TaggedValue::Bool(a@[i])),
        },
        WireValue::JsonArray(v) => match v {
            None => r == TaggedValue::Null,
            Some(a) => is_array_of(r, a@.len() as int, |i: int| TaggedValue::Structured(a@[i])),
        },
        WireValue::Other { text, bytes } => match text {
            Some(s) => r == TaggedValue::Text(s),
            None => match bytes {
                Some(b) if valid_utf8(b@) => is_text(r, decode_utf8(b@)),
                _ => r matches TaggedValue::Raw(x) && x@ == undecodable_text(t),
            },
        },
    }
}

proof fn lemma_pow256_values()
    ensures
        pow256(0) == 1,
        pow256(8) == 0x1_0000_0000_0000_0000,
        forall|i: nat| i < 8 ==> #[trigger] pow256(i + 1) == 256 * pow256(i),
        forall|i: nat| i <= 8 ==> #[trigger] pow256(i) <= 0x1_0000_0000_0000_0000,
{
    reveal_with_fuel(pow256, 9);
    assert forall|i: nat| i <= 8 implies #[trigger] pow256(i) <= 0x1_0000_0000_0000_0000 by {
        if i == 0 {} else if i == 1 {} else if i == 2 {} else if i == 3 {} else if i == 4 {}
        else if i == 5 {} else if i == 6 {} else if i == 7 {} else {}
    }
}

/// Reads 8 bytes as a big-endian two's complement integer.
pub fn be_int64(b: &Vec<u8>) -> (r: i64)
    requires
        b@.len() == 8,
    ensures
        r as int == be_i64(b@),
{
    proof { lemma_pow256_values(); }
    let mut acc: u64 = 0;
    let mut i: usize = 0;
    while i < 8
        invariant
            b@.len() == 8,
            i <= 8,
            acc as nat == be_nat(b@.subrange(0, i as int)),
            (acc as nat) < pow256(i as nat),
            pow256(i as nat) <= 0x1_0000_0000_0000_0000,
            forall|j: nat| j < 8 ==> #[trigger] pow256(j + 1) == 256 * pow256(j),
            forall|j: nat| j <= 8 ==> #[trigger] pow256(j) <= 0x1_0000_0000_0000_0000,
        decreases 8 - i,
    {
        let x = b[i];
        assert(pow256((i + 1) as nat) == 256 * pow256(i as nat));
        assert((acc as nat) * 256 + (x as nat) < pow256((i + 1) as nat)) by (nonlinear_arith)
            requires
                (acc as nat) < pow256(i as nat),
                pow256((i + 1) as nat) == 256 * pow256(i as nat),
                x < 256,
        ;
        assert(pow256((i + 1) as nat) <= 0x1_0000_0000_0000_0000);
        assert(b@.subrange(0, i + 1).drop_last() =~= b@.subrange(0, i as int));
        acc = acc * 256 + x as u64;
        i = i + 1;
    }
    assert(b@.subrange(0, 8) =~= b@);
    let v: i128 = if acc >= 0x8000_0000_0000_0000 {
        acc as i128 - 0x1_0000_0000_0000_0000i128
    } else {
        acc as i128
    };
    v as i64
}

/// Renders a currency amount given in minor units.
pub fn money_string(cents: i64) -> (r: String)
    ensures
        r@ == money_text(cents as int),
{
    let mut s = String::new();
    push_char(&mut s, '$');
    let mag: u64 = if cents < 0 {
        push_char(&mut s, '-');
        (-(cents as i128)) as u64
    } else {
        cents as u64
    };
    assert(mag as nat == abs(cents as int));
    push_decimal(&mut s, (mag / 100) as u128);
    push_char(&mut s, '.');
    push_digit(&mut s, ((mag % 100) / 10) as u128);
    push_digit(&mut s, (mag % 10) as u128);
    assert(s@ =~= money_text(cents as int));
    s
}

/// Decodes the raw binary form of a currency value: 8 bytes give the amount,
/// any other length gives a diagnostic text.
pub fn money_value(bytes: Vec<u8>) -> (r: TaggedValue)
    ensures
        bytes@.len() == 8 ==> is_text(r, money_text(be_i64(bytes@))),
        bytes@.len() != 8 ==> is_text(r, bad_money_text(bytes@.len())),
{
    if bytes.len() == 8 {
        TaggedValue::Text(money_string(be_int64(&bytes)))
    } else {
        let mut s = "Invalid money len: ".to_owned();
        push_decimal(&mut s, bytes.len() as u128);
        TaggedValue::Text(s)
    }
}

/// Relies on `std::str::from_utf8`: it succeeds exactly on well-formed UTF-8,
/// and then holds the characters that the bytes encode.
#[verifier::external_body]
fn utf8_text(bytes: &Vec<u8>) -> (r: Option<String>)
    ensures
        r is Some <==> valid_utf8(bytes@),
        r is Some ==> r->0@ == decode_utf8(bytes@),
{
    std::str::from_utf8(bytes).ok().map(|s| s.to_owned())
}

/// The fallback for a type that has no decode of its own: the textual decode,
/// else the bytes read as UTF-8, else a placeholder naming the type.
pub fn fallback_value(backend_type: &str, text: Option<String>, bytes: Option<Vec<u8>>) -> (r: TaggedValue)
    ensures
        coerces_to(backend_type@, WireValue::Other { text, bytes }, r),
{
    match text {
        Some(s) => TaggedValue::Text(s),
        None => {
            if let Some(b) = &bytes {
                if let Some(s) = utf8_text(b) {
                    return TaggedValue::Text(s);
                }
            }
            let mut s = String::new();
            push_char(&mut s, '<');
            s.append(backend_type);
            push_char(&mut s, '>');
            assert(s@ =~= undecodable_text(backend_type@));
            TaggedValue::Raw(s)
        },
    }
}

/// Coerces the outcome of a column's typed decode. Total: every wire value of
/// every backend type gives exactly the value that [`coerces_to`] names.
pub fn coerce(backend_type: &str, wire: WireValue) -> (r: TaggedValue)
    ensures
        coerces_to(backend_type@, wire, r),
{
    match wire {
        WireValue::Null => TaggedValue::Null,
        WireValue::Bool(v) => match v { Some(b) => TaggedValue::Bool(b), None => TaggedValue::Null },
        WireValue::Int(v) => match v { Some(x) => TaggedValue::Int(x), None => TaggedValue::Null },
        WireValue::Float(v) => match v { Some(x) => TaggedValue::Float(x), None => TaggedValue::Null },
        WireValue::Text(v) => match v { Some(s) => TaggedValue::Text(s), None => TaggedValue::Null },
        WireValue::Json(v) => match v {
            Some(s) => TaggedValue::Structured(s),
            None => TaggedValue::Null,
        },
        WireValue::Timestamp { aware, naive } => match aware {
            Some(s) => TaggedValue::Text(s),
            None => match naive { Some(s) => TaggedValue::Text(s), None => TaggedValue::Null },
        },
        WireValue::Money(v) => match v { Some(b) => money_value(b), None => TaggedValue::Null },
        WireValue::TextArray(v) => match v {
            None => TaggedValue::Null,
            Some(a) => {
                let mut out: Vec<TaggedValue> = Vec::new();
                let mut i: usize = 0;
                while i < a.len()
                    invariant
                        i <= a@.len(),
                        out@.len() == i,
                        forall|j: int| 0 <= j < i ==> out@[j] == TaggedValue::Text(a@[j]),
                    decreases a@.len() - i,
                {
                    out.push(TaggedValue::Text(a[i].clone()));
                    i = i + 1;
                }
                TaggedValue::Array(out)
            },
        },
        WireValue::IntArray(v) => match v {
            None => TaggedValue::Null,
            Some(a) => {
                let mut out: Vec<TaggedValue> = Vec::new();
                let mut i: usize = 0;
                while i < a.len()
                    invariant
                        i <= a@.len(),
                        out@.len() == i,
                        forall|j: int| 0 <= j < i ==> out@[j] == TaggedValue::Int(a@[j]),
                    decreases a@.len() - i,
                {
                    out.push(TaggedValue::Int(a[i]));
                    i = i + 1;
                }
                TaggedValue::Array(out)
            },
        },
        WireValue::FloatArray(v) => match v {
            None => TaggedValue::Null,
            Some(a) => {
                let mut out: Vec<TaggedValue> = Vec::new();
                let mut i: usize = 0;
                while i < a.len()
                    invariant
                        i <= a@.len(),
                        out@.len() == i,
                        forall|j: int| 0 <= j < i ==> out@[j] == TaggedValue::Float(a@[j]),
                    decreases a@.len() - i,
                {
                    out.push(TaggedValue::Float(a[i]));
                    i = i + 1;
                }
                TaggedValue::Array(out)
            },
        },
        WireValue::BoolArray(v) => match v {
            None => TaggedValue::Null,
            Some(a) => {
                let mut out: Vec<TaggedValue> = Vec::new();
                let mut i: usize = 0;
                while i < a.len()
                    invariant
                        i <= a@.len(),
                        out@.len() == i,
                        forall|j: int| 0 <= j < i ==> out@[j] == TaggedValue::Bool(a@[j]),
                    decreases a@.len() - i,
                {
                    out.push(TaggedValue::Bool(a[i]));
                    i = i + 1;
                }
                TaggedValue::Array(out)
            },
        },
        WireValue::JsonArray(v) => match v {
            None => TaggedValue::Null,
            Some(a) => {
                let mut out: Vec<TaggedValue> = Vec::new();
                let mut i: usize = 0;
                while i < a.len()
                    invariant
                        i <= a@.len(),
                        out@.len() == i,
                        forall|j: int| 0 <= j < i ==> out@[j] == TaggedValue::Structured(a@[j]),
                    decreases a@.len() - i,
                {
                    out.push(TaggedValue::Structured(a[i].clone()));
                    i = i + 1;
                }
                TaggedValue::Array(out)
            },
        },
        WireValue::Other { text, bytes } => fallback_value(backend_type, text, bytes),
    }
}

} // verus!
