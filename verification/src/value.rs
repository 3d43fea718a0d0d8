//! Field values: what a span or an event records under a name.
use crate::text::{chars_of, decimal, printable, signed_decimal};
use vstd::prelude::*;

verus! {

/// A value recorded for a field.
///
/// A floating-point value is held as its decimal text, written by the code that
/// visits the field; a text that is no JSON number (such as `NaN`) is rendered
/// as `null`.
#[derive(Debug, PartialEq, Eq)]
pub enum FieldValue {
    /// A signed integer.
    Int(i64),
    /// An unsigned integer.
    UInt(u64),
    /// A floating-point number, as decimal text.
    Float(String),
    /// A boolean.
    Bool(bool),
    /// A string.
    Str(String),
    /// The debug representation of a value of any other type.
    Debug(String),
}

/// The mathematical content of a [`FieldValue`].
pub enum Value {
    /// A signed integer.
    Int(i64),
    /// An unsigned integer.
    UInt(u64),
    /// The decimal text of a floating-point number.
    Float(Seq<char>),
    /// A boolean.
    Bool(bool),
    /// The characters of a string.
    Str(Seq<char>),
    /// The characters of a debug representation.
    Debug(Seq<char>),
}

/// Stored fields: names with their values, in order.
pub type Entries = Seq<(Seq<char>, Value)>;

impl View for FieldValue {
    type V = Value;

    open spec fn view(&self) -> Value {
        match self {
            FieldValue::Int(i) => Value::Int(*i),
            FieldValue::UInt(u) => Value::UInt(*u),
            FieldValue::Float(t) => Value::Float(t@),
            FieldValue::Bool(b) => Value::Bool(*b),
            FieldValue::Str(s) => Value::Str(s@),
            FieldValue::Debug(s) => Value::Debug(s@),
        }
    }
}

impl Value {
    /// The text of a string-typed value; `None` for a number or a boolean.
    pub open spec fn text(self) -> Option<Seq<char>> {
        match self {
            Value::Str(s) => Some(s),
            Value::Debug(s) => Some(s),
            _ => None,
        }
    }
}

impl Clone for FieldValue {
    fn clone(&self) -> (r: Self)
        ensures
            r@ == self@,
    {
        match self {
            FieldValue::Int(i) => FieldValue::Int(*i),
            FieldValue::UInt(u) => FieldValue::UInt(*u),
            FieldValue::Float(t) => FieldValue::Float(t.clone()),
            FieldValue::Bool(b) => FieldValue::Bool(*b),
            FieldValue::Str(s) => FieldValue::Str(s.clone()),
            FieldValue::Debug(s) => FieldValue::Debug(s.clone()),
        }
    }
}

impl FieldValue {
    /// The text of a string-typed value; `None` for a number or a boolean.
    pub fn as_str(&self) -> (r: Option<&str>)
        ensures
            match r {
                Some(s) => self@.text() == Some(s@),
                None => self@.text() is None,
            },
    {
        match self {
            FieldValue::Str(s) => Some(s.as_str()),
            FieldValue::Debug(s) => Some(s.as_str()),
            _ => None,
        }
    }
}

/// A named value: one field of a span or of an event.
#[derive(Debug, PartialEq, Eq)]
pub struct Field {
    /// The name of the field.
    pub name: String,
    /// What was recorded under that name.
    pub value: FieldValue,
}

impl View for Field {
    type V = (Seq<char>, Value);

    open spec fn view(&self) -> (Seq<char>, Value) {
        (self.name@, self.value@)
    }
}

impl Clone for Field {
    fn clone(&self) -> (r: Self)
        ensures
            r@ == self@,
    {
        Field { name: self.name.clone(), value: self.value.clone() }
    }
}

impl Field {
    /// A field with the given name and value.
    pub fn new(name: &str, value: FieldValue) -> (r: Field)
        ensures
            r@ == (name@, value@),
    {
        Field { name: name.to_owned(), value }
    }
}

/// The views of the given fields: name and value of each.
pub open spec fn entries_of(fields: Seq<Field>) -> Entries {
    fields.map_values(|f: Field| f@)
}

/// `c` is one of the ten decimal digits.
pub open spec fn is_digit(c: char) -> bool {
    '0' <= c <= '9'
}

/// The first index from `i` on at which `s` holds no digit.
pub open spec fn digits_end(s: Seq<char>, i: int) -> int
    decreases s.len() - i,
{
    if 0 <= i < s.len() && is_digit(s[i]) {
        digits_end(s, i + 1)
    } else {
        i
    }
}

/// Where the integer part that begins at `i` ends: a single `0`, or a digit
/// from 1 to 9 and the digits after it. `None` where no digit stands at `i`.
pub open spec fn integer_end(s: Seq<char>, i: int) -> Option<int> {
    if 0 <= i < s.len() && s[i] == '0' {
        Some(i + 1)
    } else if 0 <= i < s.len() && is_digit(s[i]) {
        Some(digits_end(s, i))
    } else {
        None
    }
}

/// Where the optional fraction that begins at `i` ends: a point and at least
/// one digit. `None` where a point stands at `i` without a digit after it.
pub open spec fn fraction_end(s: Seq<char>, i: int) -> Option<int> {
    if 0 <= i < s.len() && s[i] == '.' {
        if i + 1 < s.len() && is_digit(s[i + 1]) {
            Some(digits_end(s, i + 1))
        } else {
            None
        }
    } else {
        Some(i)
    }
}

/// Where the optional exponent that begins at `i` ends: `e` or `E`, an
/// optional sign and at least one digit. `None` where the digits are missing.
pub open spec fn exponent_end(s: Seq<char>, i: int) -> Option<int> {
    if 0 <= i < s.len() && (s[i] == 'e' || s[i] == 'E') {
        let j = if i + 1 < s.len() && (s[i + 1] == '+' || s[i + 1] == '-') {
            i + 2
        } else {
            i + 1
        };
        if j < s.len() && is_digit(s[j]) {
            Some(digits_end(s, j))
        } else {
            None
        }
    } else {
        Some(i)
    }
}

/// `s` is a number in the grammar of JSON: an optional minus sign, an integer
/// part, an optional fraction and an optional exponent, and nothing else.
pub open spec fn is_json_number(s: Seq<char>) -> bool {
    let start: int = if s.len() > 0 && s[0] == '-' {
        1
    } else {
        0
    };
    match integer_end(s, start) {
        Some(a) => match fraction_end(s, a) {
            Some(b) => match exponent_end(s, b) {
                Some(c) => c == s.len(),
                None => false,
            },
            None => false,
        },
        None => false,
    }
}

/// Scans the digits from `i` on.
fn scan_digits(s: &[char], i: usize) -> (r: usize)
    requires
        i <= s.len(),
    ensures
        r == digits_end(s@, i as int),
        i <= r <= s.len(),
{
    let mut k: usize = i;
    while k < s.len() && '0' <= s[k] && s[k] <= '9'
        invariant
            i <= k <= s.len(),
            digits_end(s@, i as int) == digits_end(s@, k as int),
        decreases s.len() - k,
    {
        k = k + 1;
    }
    k
}

/// Whether a digit stands at index `i`.
fn digit_at(s: &[char], i: usize) -> (r: bool)
    ensures
        r == (i < s.len() && is_digit(s@[i as int])),
{
    i < s.len() && '0' <= s[i] && s[i] <= '9'
}

/// Decides whether `text` is a number in the grammar of JSON.
pub fn json_number(text: &str) -> (r: bool)
    ensures
        r == is_json_number(text@),
{
    let v = chars_of(text);
    let s = v.as_slice();
    let n = s.len();
    let start: usize = if n > 0 && s[0] == '-' {
        1
    } else {
        0
    };
    if !digit_at(s, start) {
        return false;
    }
    let a: usize = if s[start] == '0' {
        start + 1
    } else {
        scan_digits(s, start)
    };
    let b: usize = if a < n && s[a] == '.' {
        if !digit_at(s, a + 1) {
            return false;
        }
        scan_digits(s, a + 1)
    } else {
        a
    };
    let c: usize = if b < n && (s[b] == 'e' || s[b] == 'E') {
        let j: usize = if b + 1 < n && (s[b + 1] == '+' || s[b + 1] == '-') {
            b + 2
        } else {
            b + 1
        };
        if !digit_at(s, j) {
            return false;
        }
        scan_digits(s, j)
    } else {
        b
    };
    c == n
}

/// From `i` up to where the digits end there are only digits, and they end
/// within the text.
pub proof fn lemma_digits_end(s: Seq<char>, i: int)
    requires
        0 <= i <= s.len(),
    ensures
        i <= digits_end(s, i) <= s.len(),
        forall|k: int| i <= k < digits_end(s, i) ==> is_digit(#[trigger] s[k]),
    decreases s.len() - i,
{
    if i < s.len() && is_digit(s[i]) {
        lemma_digits_end(s, i + 1);
    }
}

/// A JSON number holds only digits, signs, a point and the letter of the
/// exponent: it is printable.
pub proof fn lemma_json_number_printable(s: Seq<char>)
    requires
        is_json_number(s),
    ensures
        printable(s),
{
    let start: int = if s.len() > 0 && s[0] == '-' {
        1
    } else {
        0
    };
    let a = integer_end(s, start)->0;
    let b = fraction_end(s, a)->0;
    // The digits of the integer part, of the fraction and of the exponent.
    lemma_digits_end(s, start);
    if a < s.len() && s[a] == '.' {
        lemma_digits_end(s, a + 1);
    }
    if b < s.len() && (s[b] == 'e' || s[b] == 'E') {
        if b + 1 < s.len() && (s[b + 1] == '+' || s[b + 1] == '-') {
            lemma_digits_end(s, b + 2);
        } else {
            lemma_digits_end(s, b + 1);
        }
    }
}

/// Where only digits follow, the digits end with the text.
pub proof fn lemma_digits_to_the_end(s: Seq<char>, i: int)
    requires
        0 <= i <= s.len(),
        forall|k: int| i <= k < s.len() ==> is_digit(#[trigger] s[k]),
    ensures
        digits_end(s, i) == s.len(),
    decreases s.len() - i,
{
    if i < s.len() {
        lemma_digits_to_the_end(s, i + 1);
    }
}

/// Decimal text is made of digits and begins with a zero only for zero.
pub proof fn lemma_decimal_digits(n: nat)
    ensures
        decimal(n).len() >= 1,
        forall|k: int| 0 <= k < decimal(n).len() ==> is_digit(#[trigger] decimal(n)[k]),
        n > 0 ==> decimal(n)[0] != '0',
        n == 0 ==> decimal(n) == seq!['0'],
    decreases n,
{
    if n >= 10 {
        lemma_decimal_digits(n / 10);
    }
}

/// The decimal text of an integer is a JSON number.
pub proof fn lemma_decimal_is_json_number(i: int)
    ensures
        is_json_number(signed_decimal(i)),
{
    let s = signed_decimal(i);
    if i >= 0 {
        lemma_decimal_digits(i as nat);
        lemma_digits_to_the_end(s, 0);
    } else {
        lemma_decimal_digits((-i) as nat);
        lemma_digits_to_the_end(s, 1);
    }
}

} // verus!
