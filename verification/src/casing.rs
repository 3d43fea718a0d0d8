//! Key casing: the same identifier written in snake, camel or Pascal case.
use crate::text::{ascii_lower, ascii_upper, push_char, to_ascii_lower, to_ascii_upper};
use crate::unicode::{is_lowercase, is_uppercase, lowercase, uppercase};
use vstd::prelude::*;

verus! {

/// Change case of keys
#[derive(Clone, Copy, Debug, PartialEq, Eq)]
pub enum Case {
    /// Leave every key as it was recorded
    Unchanged,
    /// Convert all keys to camelCase
    Camel,
    /// Convert all keys to PascalCase
    Pascal,
    /// Convert all keys to snake_case
    Snake,
}

/// An underscore is put before `key[i]`: a capital that is not the first
/// character and follows neither a capital nor an underscore.
pub open spec fn starts_word(key: Seq<char>, i: int) -> bool {
    &&& 0 < i < key.len()
    &&& uppercase(key[i])
    &&& !uppercase(key[i - 1])
    &&& key[i - 1] != '_'
}

/// What the first `n` characters of `key` contribute to its snake-case form.
pub open spec fn snake_prefix(key: Seq<char>, n: nat) -> Seq<char>
    decreases n,
{
    if n == 0 {
        Seq::empty()
    } else {
        let i = (n - 1) as int;
        let before = snake_prefix(key, i as nat);
        if starts_word(key, i) {
            before.push('_').push(ascii_lower(key[i]))
        } else {
            before.push(ascii_lower(key[i]))
        }
    }
}

/// The snake-case form of `key`: each word boundary marked by an underscore,
/// every ASCII capital lower-cased, underscores already there kept.
pub open spec fn snake_case(key: Seq<char>) -> Seq<char> {
    snake_prefix(key, key.len())
}

/// `key[i]` is the first character of a segment: segments are what underscores
/// separate.
pub open spec fn starts_segment(key: Seq<char>, i: int) -> bool {
    0 <= i < key.len() && key[i] != '_' && (i == 0 || key[i - 1] == '_')
}

/// `key[i]` continues a run that began with the first character of its
/// segment and has met neither a lower-case letter nor an underscore since.
/// Such a character is lower-cased, so that an acronym keeps one capital.
pub open spec fn in_capital_run(key: Seq<char>, i: int) -> bool
    decreases i,
{
    &&& 0 < i < key.len()
    &&& key[i] != '_'
    &&& !lowercase(key[i])
    &&& (starts_segment(key, i - 1) || in_capital_run(key, i - 1))
}

/// What `key[i]` becomes in Pascal case; an underscore gives nothing.
pub open spec fn pascal_piece(key: Seq<char>, i: int) -> Seq<char> {
    if key[i] == '_' {
        Seq::empty()
    } else if in_capital_run(key, i) {
        seq![ascii_lower(key[i])]
    } else if starts_segment(key, i) {
        seq![ascii_upper(key[i])]
    } else {
        seq![key[i]]
    }
}

/// What the first `n` characters of `key` contribute to its Pascal-case form.
pub open spec fn pascal_prefix(key: Seq<char>, n: nat) -> Seq<char>
    decreases n,
{
    if n == 0 {
        Seq::empty()
    } else {
        pascal_prefix(key, (n - 1) as nat) + pascal_piece(key, n - 1)
    }
}

/// The Pascal-case form of `key`: the segments joined without separator, each
/// with its first character capitalised.
pub open spec fn pascal_case(key: Seq<char>) -> Seq<char> {
    pascal_prefix(key, key.len())
}

/// The camel-case form of `key`: its Pascal-case form with the first character
/// lower-cased.
pub open spec fn camel_case(key: Seq<char>) -> Seq<char> {
    let p = pascal_case(key);
    if p.len() == 0 {
        p
    } else {
        seq![ascii_lower(p[0])] + p.skip(1)
    }
}

/// `key` in the given case.
pub open spec fn cased_key(key: Seq<char>, case: Case) -> Seq<char> {
    match case {
        Case::Unchanged => key,
        Case::Camel => camel_case(key),
        Case::Pascal => pascal_case(key),
        Case::Snake => snake_case(key),
    }
}

/// Converts a key to snake_case.
pub fn snake(key: &str) -> (r: String)
    ensures
        r@ == snake_case(key@),
{
    let mut snake = String::new();
    let mut upper_or_underscore_last = false;
    let mut first = true;
    for ch in it: key.chars()
        invariant
            it.seq() == key@,
            first == (it.index() == 0),
            snake@ == snake_prefix(key@, it.index() as nat),
            it.index() > 0 ==> upper_or_underscore_last == (uppercase(
                key@[it.index() - 1],
            ) || key@[it.index() - 1] == '_'),
    {
        let upper = is_uppercase(ch);
        if !first && upper && !upper_or_underscore_last {
            push_char(&mut snake, '_');
        }
        first = false;
        upper_or_underscore_last = upper || ch == '_';
        push_char(&mut snake, to_ascii_lower(ch));
    }
    snake
}

/// Converts a key to PascalCase.
pub fn pascal(key: &str) -> (r: String)
    ensures
        r@ == pascal_case(key@),
{
    let mut pascal = String::new();
    let mut capitalize = true;
    let mut upper_last = false;
    for ch in it: key.chars()
        invariant
            it.seq() == key@,
            pascal@ == pascal_prefix(key@, it.index() as nat),
            capitalize == (it.index() == 0 || key@[it.index() - 1] == '_'),
            upper_last == (it.index() > 0 && (starts_segment(key@, it.index() - 1)
                || in_capital_run(key@, it.index() - 1))),
    {
        if is_lowercase(ch) {
            upper_last = false;
        }
        if ch == '_' {
            capitalize = true;
            upper_last = false;
        } else if upper_last {
            push_char(&mut pascal, to_ascii_lower(ch));
        } else if capitalize {
            push_char(&mut pascal, to_ascii_upper(ch));
            capitalize = false;
            upper_last = true;
        } else {
            push_char(&mut pascal, ch);
            upper_last = false;
        }
    }
    pascal
}

/// Converts a key to camelCase.
pub fn camel(key: &str) -> (r: String)
    ensures
        r@ == camel_case(key@),
{
    let pascal = pascal(key);
    let mut camel = String::new();
    let mut first = true;
    for ch in it: pascal.as_str().chars()
        invariant
            it.seq() == pascal@,
            first == (it.index() == 0),
            it.index() == 0 ==> camel@ == Seq::<char>::empty(),
            it.index() > 0 ==> camel@ == seq![ascii_lower(pascal@[0])] + pascal@.subrange(
                1,
                it.index() as int,
            ),
    {
        if first {
            push_char(&mut camel, to_ascii_lower(ch));
            first = false;
        } else {
            push_char(&mut camel, ch);
        }
    }
    camel
}

/// Writes `key` in the given case.
pub fn cased(key: &str, case: Case) -> (r: String)
    ensures
        r@ == cased_key(key@, case),
{
    match case {
        Case::Snake => snake(key),
        Case::Pascal => pascal(key),
        Case::Camel => camel(key),
        Case::Unchanged => key.to_owned(),
    }
}

/// A key without capitals is its own snake-case form: nothing is inserted
/// and nothing is lower-cased.
pub proof fn lemma_snake_without_capitals(key: Seq<char>)
    requires
        forall|i: int|
            0 <= i < key.len() ==> !uppercase(#[trigger] key[i]),
    ensures
        snake_case(key) == key,
{
    lemma_snake_prefix_without_capitals(key, key.len());
}

/// Without capitals the snake-case form of a beginning is that beginning.
proof fn lemma_snake_prefix_without_capitals(key: Seq<char>, n: nat)
    requires
        n <= key.len(),
        forall|i: int|
            0 <= i < key.len() ==> !uppercase(#[trigger] key[i]),
    ensures
        snake_prefix(key, n) == key.take(n as int),
    decreases n,
{
    if n > 0 {
        lemma_snake_prefix_without_capitals(key, (n - 1) as nat);
    }
}

/// Under `Case::Unchanged` every key is shown as it was recorded; the camel
/// form of a key differs from its Pascal form in the first character at
/// most.
pub proof fn lemma_cases(key: Seq<char>)
    ensures
        cased_key(key, Case::Unchanged) == key,
        camel_case(key).len() == pascal_case(key).len(),
        forall|i: int| 0 < i < pascal_case(key).len() ==> camel_case(key)[i] == pascal_case(key)[i],
        pascal_case(key).len() > 0 ==> camel_case(key)[0] == ascii_lower(pascal_case(key)[0]),
{
}

} // verus!
