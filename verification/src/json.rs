//! JSON text: string literals, scalar values and flat objects.
//!
//! Strings are escaped by `serde_json`; numbers, booleans and the framing of
//! an object are written here.
use crate::error::FormatError;
use crate::text::{
    decimal, i64_text, lemma_decimal_printable, lemma_printable_concat, printable, signed_decimal,
    u64_text,
};
use crate::value::{
    is_json_number, json_number, lemma_decimal_is_json_number, lemma_json_number_printable,
    FieldValue, Value,
};
use vstd::prelude::*;

verus! {

/// The character of one hexadecimal digit, in lower case.
pub open spec fn hex_digit(n: nat) -> char
    recommends
        n < 16,
{
    if n < 10 {
        ((48 + n) as u8) as char
    } else {
        ((87 + n) as u8) as char
    }
}

/// What stands for `c` inside a JSON string literal: a quote, a backslash and
/// the control characters are escaped, every other character stands for
/// itself.
pub open spec fn json_escape(c: char) -> Seq<char> {
    if c == '"' {
        seq!['\\', '"']
    } else if c == '\\' {
        seq!['\\', '\\']
    } else if c == '\u{8}' {
        seq!['\\', 'b']
    } else if c == '\t' {
        seq!['\\', 't']
    } else if c == '\n' {
        seq!['\\', 'n']
    } else if c == '\u{c}' {
        seq!['\\', 'f']
    } else if c == '\r' {
        seq!['\\', 'r']
    } else if (c as u32) < 0x20 {
        seq!['\\', 'u', '0', '0', hex_digit(((c as u32) / 16) as nat), hex_digit(((c as u32) % 16) as nat)]
    } else {
        seq![c]
    }
}

/// The characters of `s`, each escaped for a JSON string literal.
pub open spec fn json_escaped(s: Seq<char>) -> Seq<char>
    decreases s.len(),
{
    if s.len() == 0 {
        Seq::empty()
    } else {
        json_escaped(s.drop_last()) + json_escape(s.last())
    }
}

/// The JSON string literal for `s`: its escaped characters between two quotes.
pub open spec fn json_string_text(s: Seq<char>) -> Seq<char> {
    seq!['"'] + json_escaped(s) + seq!['"']
}

/// Writes `s` as a JSON string literal.
///
/// Wraps `serde_json::to_string` on a `str`. The contract says that the call
/// succeeds: it writes into a vector of bytes, which takes every write, and
/// a `str` serializes itself by one call that writes the literal. It gives
/// the literal as the compact formatter of `serde_json` writes it: a quote,
/// each character through its escape table, a quote.
#[verifier::external_body]
pub(crate) fn json_string(s: &str) -> (r: Result<String, serde_json::Error>)
    ensures
        r is Ok,
        r matches Ok(t) ==> t@ == json_string_text(s@),
{
    serde_json::to_string(s)
}

/// The JSON text of a value. A float whose text is no JSON number is `null`.
pub open spec fn json_value_text(v: Value) -> Seq<char> {
    match v {
        Value::Int(i) => signed_decimal(i as int),
        Value::UInt(u) => decimal(u as nat),
        Value::Float(t) => if is_json_number(t) {
            t
        } else {
            "null"@
        },
        Value::Bool(b) => if b {
            "true"@
        } else {
            "false"@
        },
        Value::Str(s) => json_string_text(s),
        Value::Debug(s) => json_string_text(s),
    }
}

/// Writes `s` as a JSON string literal. The result has the form of the
/// serializer's, which accepts every string.
pub fn json_literal(s: &str) -> (r: Result<String, FormatError>)
    ensures
        r is Ok,
        r matches Ok(t) ==> t@ == json_string_text(s@),
{
    match json_string(s) {
        Ok(t) => Ok(t),
        Err(e) => Err(FormatError::Json(e)),
    }
}

/// Writes a value as JSON text.
pub fn json_value(v: &FieldValue) -> (r: Result<String, FormatError>)
    ensures
        r is Ok,
        r matches Ok(t) ==> t@ == json_value_text(v@),
{
    match v {
        FieldValue::Int(i) => Ok(i64_text(*i)),
        FieldValue::UInt(u) => Ok(u64_text(*u)),
        FieldValue::Float(t) => {
            if json_number(t.as_str()) {
                Ok(t.clone())
            } else {
                Ok("null".to_owned())
            }
        },
        FieldValue::Bool(b) => {
            if *b {
                Ok("true".to_owned())
            } else {
                Ok("false".to_owned())
            }
        },
        FieldValue::Str(s) => json_literal(s.as_str()),
        FieldValue::Debug(s) => json_literal(s.as_str()),
    }
}

/// The texts in `parts`, with `sep` between each two.
pub open spec fn joined(parts: Seq<Seq<char>>, sep: Seq<char>) -> Seq<char>
    decreases parts.len(),
{
    if parts.len() == 0 {
        Seq::empty()
    } else if parts.len() == 1 {
        parts[0]
    } else {
        joined(parts.drop_last(), sep) + sep + parts.last()
    }
}

/// The views of the given strings.
pub open spec fn texts(parts: Seq<String>) -> Seq<Seq<char>> {
    parts.map_values(|s: String| s@)
}

/// Puts braces around the given members and commas between them.
pub fn frame_object(members: &Vec<String>) -> (r: String)
    ensures
        r@ == seq!['{'] + joined(texts(members@), seq![',']) + seq!['}'],
{
    let mut r = "{".to_owned();
    proof {
        reveal_strlit("{");
        reveal_strlit(",");
        reveal_strlit("}");
    }
    let mut i: usize = 0;
    while i < members.len()
        invariant
            i <= members.len(),
            ","@ == seq![','],
            r@ == seq!['{'] + joined(texts(members@).take(i as int), seq![',']),
        decreases members.len() - i,
    {
        let ghost done = texts(members@).take(i as int);
        let ghost next = texts(members@).take(i + 1);
        assert(next.drop_last() =~= done);
        if i > 0 {
            r.append(",");
        }
        r.append(members[i].as_str());
        i = i + 1;
    }
    assert(texts(members@).take(members.len() as int) =~= texts(members@));
    r.append("}");
    r
}

/// An escaped character holds no control character.
pub proof fn lemma_json_escape_printable(c: char)
    ensures
        printable(json_escape(c)),
{
}

/// A JSON string literal holds no control character, whatever the string
/// holds.
pub proof fn lemma_json_string_printable(s: Seq<char>)
    ensures
        printable(json_escaped(s)),
        printable(json_string_text(s)),
    decreases s.len(),
{
    if s.len() > 0 {
        lemma_json_string_printable(s.drop_last());
        lemma_json_escape_printable(s.last());
        lemma_printable_concat(json_escaped(s.drop_last()), json_escape(s.last()));
    }
    lemma_printable_concat(seq!['"'], json_escaped(s));
    lemma_printable_concat(seq!['"'] + json_escaped(s), seq!['"']);
}

/// The JSON text of a value holds no control character.
pub proof fn lemma_json_value_printable(v: Value)
    ensures
        printable(json_value_text(v)),
{
    reveal_strlit("null");
    reveal_strlit("true");
    reveal_strlit("false");
    match v {
        Value::Int(i) => {
            if i >= 0 {
                lemma_decimal_printable(i as nat);
            } else {
                lemma_decimal_printable((-i) as nat);
            }
        },
        Value::UInt(u) => {
            lemma_decimal_printable(u as nat);
        },
        Value::Float(t) => {
            if is_json_number(t) {
                lemma_json_number_printable(t);
            }
        },
        Value::Bool(b) => {},
        Value::Str(s) => {
            lemma_json_string_printable(s);
        },
        Value::Debug(s) => {
            lemma_json_string_printable(s);
        },
    }
}

/// Printable texts joined by a printable separator are printable.
pub proof fn lemma_joined_printable(parts: Seq<Seq<char>>, sep: Seq<char>)
    requires
        forall|i: int| 0 <= i < parts.len() ==> printable(#[trigger] parts[i]),
        printable(sep),
    ensures
        printable(joined(parts, sep)),
    decreases parts.len(),
{
    if parts.len() > 1 {
        lemma_joined_printable(parts.drop_last(), sep);
        lemma_printable_concat(joined(parts.drop_last(), sep), sep);
        lemma_printable_concat(joined(parts.drop_last(), sep) + sep, parts.last());
    }
}

/// `t` is a scalar of JSON: a number, a string literal, `true`, `false` or
/// `null`.
pub open spec fn is_json_scalar(t: Seq<char>) -> bool {
    ||| is_json_number(t)
    ||| t == "true"@
    ||| t == "false"@
    ||| t == "null"@
    ||| exists|s: Seq<char>| t == #[trigger] json_string_text(s)
}

/// The JSON text of every value is a scalar of JSON.
pub proof fn lemma_json_value_is_scalar(v: Value)
    ensures
        is_json_scalar(json_value_text(v)),
{
    match v {
        Value::Int(i) => {
            lemma_decimal_is_json_number(i as int);
        },
        Value::UInt(u) => {
            lemma_decimal_is_json_number(u as int);
        },
        Value::Float(t) => {},
        Value::Bool(b) => {},
        Value::Str(s) => {
        },
        Value::Debug(s) => {
        },
    }
}

} // verus!
