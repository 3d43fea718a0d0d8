//! The fields of one span: what it recorded itself and what it inherited,
//! with the policy that settles a name recorded twice.
use crate::text::{
    ascii_lowercase, chars_of, copy_range, has_prefix, is_prefix, str_eq, string_of,
    to_ascii_lowercase,
};
use crate::value::{entries_of, Entries, Field, FieldValue, Value};
use vstd::prelude::*;

verus! {

/// Format the span field
#[derive(Copy, Clone, Debug, PartialEq, Eq)]
pub enum SpanFormat {
    /// Turn off the span field
    Off,
    /// Nested children spans join parent spans e.g. parent_span::child_span
    Join(&'static str),
    /// Nested children spans overwrite parent spans
    Overwrite,
}

impl Default for SpanFormat {
    fn default() -> (r: Self)
        ensures
            r matches SpanFormat::Join(sep) && sep@ == "::"@,
    {
        SpanFormat::Join("::")
    }
}

/// Join fields with characters
#[derive(Copy, Clone, Debug)]
pub enum JoinFields {
    /// All nested span fields will overwrite parent span fields
    Overwrite,
    /// All nested span fields will join with parent spans e.g JoinFields::All("::")
    All(&'static str),
    /// Only the listed nested span fields will join with parent spans e.g.
    /// JoinFields::Listed("::", &["field_a", "field_b"])
    Listed(&'static str, &'static [&'static str]),
}

impl Default for JoinFields {
    fn default() -> (r: Self)
        ensures
            r is Overwrite,
    {
        JoinFields::Overwrite
    }
}

/// The index of the first entry called `name`; the number of entries where
/// there is none.
pub open spec fn index_of<T>(entries: Seq<(Seq<char>, T)>, name: Seq<char>) -> int
    decreases entries.len(),
{
    if entries.len() == 0 {
        0
    } else if entries[0].0 == name {
        0
    } else {
        1 + index_of(entries.drop_first(), name)
    }
}

/// The value stored under `name`, if any.
pub open spec fn lookup<T>(entries: Seq<(Seq<char>, T)>, name: Seq<char>) -> Option<T> {
    let i = index_of(entries, name);
    if i < entries.len() {
        Some(entries[i].1)
    } else {
        None
    }
}

/// The entries with `value` stored under `name`: in the place of the old
/// value, or at the end where the name is new.
pub open spec fn stored<T>(entries: Seq<(Seq<char>, T)>, name: Seq<char>, value: T) -> Seq<
    (Seq<char>, T),
> {
    let i = index_of(entries, name);
    if i < entries.len() {
        entries.update(i, (name, value))
    } else {
        entries.push((name, value))
    }
}

/// No name occurs twice.
pub open spec fn unique_names<T>(entries: Seq<(Seq<char>, T)>) -> bool {
    forall|i: int, j: int| 0 <= i < j < entries.len() ==> entries[i].0 != entries[j].0
}

/// The name under which a field is stored. A field of the logging bridge
/// (`log.` and so on) is not stored at all; a raw identifier (`r#type`) loses
/// its marker.
pub open spec fn stored_name(name: Seq<char>) -> Option<Seq<char>> {
    if is_prefix("log."@, name) {
        None
    } else if is_prefix("r#"@, name) {
        Some(name.skip(2))
    } else {
        Some(name)
    }
}

/// `name` is the name of the span field, in any mix of ASCII cases.
pub open spec fn is_span_name(name: Seq<char>) -> bool {
    ascii_lowercase(name) == "span"@
}

/// `name` is one of `names`.
pub open spec fn listed(names: Seq<&'static str>, name: Seq<char>) -> bool {
    exists|i: int| 0 <= i < names.len() && (#[trigger] names[i])@ == name
}

/// The separator with which a string recorded under `name` is joined to the
/// string already there; `None` where the new string replaces the old one.
/// The span field goes by the span format, every other field by the field
/// policy.
pub open spec fn join_separator(
    join_fields: JoinFields,
    span_format: SpanFormat,
    name: Seq<char>,
) -> Option<Seq<char>> {
    if is_span_name(name) {
        match span_format {
            SpanFormat::Join(sep) => Some(sep@),
            _ => None,
        }
    } else {
        match join_fields {
            JoinFields::Overwrite => None,
            JoinFields::All(sep) => Some(sep@),
            JoinFields::Listed(sep, names) => if listed(names@, name) {
                Some(sep@)
            } else {
                None
            },
        }
    }
}

/// What is stored when `new` is recorded where `old` stood. Two strings are
/// joined where a separator applies; in every other case the new value
/// replaces the old one, so a number is never concatenated.
pub open spec fn merged(old: Option<Value>, new: Value, sep: Option<Seq<char>>) -> Value {
    match (old, new, sep) {
        (Some(o), Value::Str(n), Some(sep)) => match o.text() {
            Some(t) => Value::Str(t + sep + n),
            None => new,
        },
        _ => new,
    }
}

/// The entries after `value` was recorded under `name`.
pub open spec fn observed(
    entries: Entries,
    join_fields: JoinFields,
    span_format: SpanFormat,
    name: Seq<char>,
    value: Value,
) -> Entries {
    match stored_name(name) {
        None => entries,
        Some(n) => stored(
            entries,
            n,
            merged(lookup(entries, n), value, join_separator(join_fields, span_format, n)),
        ),
    }
}

/// The entries after each of `fields` was recorded, in order.
pub open spec fn observed_all(
    entries: Entries,
    join_fields: JoinFields,
    span_format: SpanFormat,
    fields: Entries,
) -> Entries
    decreases fields.len(),
{
    if fields.len() == 0 {
        entries
    } else {
        observed(
            observed_all(entries, join_fields, span_format, fields.drop_last()),
            join_fields,
            span_format,
            fields.last().0,
            fields.last().1,
        )
    }
}

/// Responsible for storing fields as a list of names and values when visiting a span.
///
/// The fields stand in the order in which their names were first recorded, so
/// that the same event gives the same record whenever it is written.
#[derive(Debug)]
pub struct JsonStorage {
    /// The fields, in the order in which their names were first recorded.
    pub values: Vec<Field>,
    /// How a field recorded twice is resolved.
    pub join_fields: JoinFields,
    /// How the span field recorded twice is resolved.
    pub span_format: SpanFormat,
}

impl Clone for JsonStorage {
    fn clone(&self) -> (r: Self)
        ensures
            r.entries() == self.entries(),
            r.join_fields == self.join_fields,
            r.span_format == self.span_format,
    {
        let mut values: Vec<Field> = Vec::new();
        let mut i: usize = 0;
        while i < self.values.len()
            invariant
                i <= self.values.len(),
                values.len() == i,
                forall|k: int| 0 <= k < i ==> values@[k]@ == self.values@[k]@,
            decreases self.values.len() - i,
        {
            values.push(self.values[i].clone());
            i = i + 1;
        }
        JsonStorage { values, join_fields: self.join_fields, span_format: self.span_format }
    }
}

impl Default for JsonStorage {
    fn default() -> (r: Self)
        ensures
            r.entries() == Entries::empty(),
            r.join_fields is Overwrite,
            r.span_format matches SpanFormat::Join(sep) && sep@ == "::"@,
            r.wf(),
    {
        JsonStorage::new(JoinFields::Overwrite, SpanFormat::Join("::"))
    }
}

impl JsonStorage {
    /// The stored names and values, in order.
    pub open spec fn entries(&self) -> Entries {
        entries_of(self.values@)
    }

    /// The storage is a map: no name is stored twice. Every storage made by
    /// this crate is one, and stays one whatever is recorded.
    pub open spec fn wf(&self) -> bool {
        unique_names(self.entries())
    }

    /// An empty storage with the given policies.
    pub fn new(join_fields: JoinFields, span_format: SpanFormat) -> (r: Self)
        ensures
            r.entries() == Entries::empty(),
            r.join_fields == join_fields,
            r.span_format == span_format,
            r.wf(),
    {
        JsonStorage { values: Vec::new(), join_fields, span_format }
    }

    /// Get the stored fields.
    pub fn values(&self) -> (r: &Vec<Field>)
        ensures
            entries_of(r@) == self.entries(),
    {
        &self.values
    }

    /// The index of the field called `name`; the number of fields where there
    /// is none.
    pub fn find(&self, name: &str) -> (r: usize)
        ensures
            r == index_of(self.entries(), name@),
            r <= self.values.len(),
    {
        let mut i: usize = 0;
        assert(self.entries().skip(0) =~= self.entries());
        while i < self.values.len()
            invariant
                i <= self.values.len(),
                index_of(self.entries(), name@) == i + index_of(
                    self.entries().skip(i as int),
                    name@,
                ),
            decreases self.values.len() - i,
        {
            if str_eq(self.values[i].name.as_str(), name) {
                return i;
            }
            assert(self.entries().skip(i as int).drop_first() =~= self.entries().skip(i + 1));
            i = i + 1;
        }
        i
    }

    /// The value stored under `name`, if any.
    pub fn get(&self, name: &str) -> (r: Option<&FieldValue>)
        ensures
            match r {
                Some(v) => lookup(self.entries(), name@) == Some(v@),
                None => lookup(self.entries(), name@) is None,
            },
    {
        let i = self.find(name);
        if i < self.values.len() {
            Some(&self.values[i].value)
        } else {
            None
        }
    }

    /// Stores `value` under `name`, in the place of the value that was there
    /// or as a new field, whatever the policies say.
    pub fn insert(&mut self, name: &str, value: FieldValue)
        ensures
            final(self).entries() == stored(old(self).entries(), name@, value@),
            final(self).join_fields == old(self).join_fields,
            final(self).span_format == old(self).span_format,
            old(self).wf() ==> final(self).wf(),
    {
        let i = self.find(name);
        if i < self.values.len() {
            proof {
                lemma_index_of(self.entries(), name@);
            }
            self.values[i].value = value;
        } else {
            self.values.push(Field { name: name.to_owned(), value });
        }
        proof {
            lemma_stored(old(self).entries(), name@, value@, name@);
        }
    }

    /// Whether `name` is one of `names`.
    fn is_listed(names: &[&'static str], name: &str) -> (r: bool)
        ensures
            r == listed(names@, name@),
    {
        let mut i: usize = 0;
        while i < names.len()
            invariant
                i <= names.len(),
                forall|k: int| 0 <= k < i ==> (#[trigger] names@[k])@ != name@,
            decreases names.len() - i,
        {
            if str_eq(names[i], name) {
                return true;
            }
            i = i + 1;
        }
        false
    }

    /// The separator that applies to a string recorded under `name`.
    pub fn separator(&self, name: &str) -> (r: Option<&'static str>)
        ensures
            match r {
                Some(sep) => join_separator(self.join_fields, self.span_format, name@) == Some(
                    sep@,
                ),
                None => join_separator(self.join_fields, self.span_format, name@) is None,
            },
    {
        let lower = to_ascii_lowercase(name);
        if str_eq(lower.as_str(), "span") {
            match self.span_format {
                SpanFormat::Join(sep) => Some(sep),
                _ => None,
            }
        } else {
            match self.join_fields {
                JoinFields::Overwrite => None,
                JoinFields::All(sep) => Some(sep),
                JoinFields::Listed(sep, names) => {
                    if Self::is_listed(names, name) {
                        Some(sep)
                    } else {
                        None
                    }
                },
            }
        }
    }

    /// Records `value` under the name exactly as given. A string is joined to
    /// the string already there where the policies ask for it; any other value
    /// replaces what was there.
    pub fn merge(&mut self, name: &str, value: FieldValue)
        ensures
            final(self).entries() == stored(
                old(self).entries(),
                name@,
                merged(
                    lookup(old(self).entries(), name@),
                    value@,
                    join_separator(old(self).join_fields, old(self).span_format, name@),
                ),
            ),
            final(self).join_fields == old(self).join_fields,
            final(self).span_format == old(self).span_format,
            old(self).wf() ==> final(self).wf(),
    {
        let joined: Option<String> = match &value {
            FieldValue::Str(new) => match self.separator(name) {
                Some(sep) => match self.get(name) {
                    Some(old_value) => match old_value.as_str() {
                        Some(old_text) => {
                            let mut t = old_text.to_owned();
                            t.append(sep);
                            t.append(new.as_str());
                            Some(t)
                        },
                        None => None,
                    },
                    None => None,
                },
                None => None,
            },
            _ => None,
        };
        match joined {
            Some(t) => self.insert(name, FieldValue::Str(t)),
            None => self.insert(name, value),
        }
    }

    /// Records `value` under `name`: the one entry point of the visitation
    /// protocol. A name that begins with `log.` is dropped; a name that begins
    /// with `r#` is stored without that marker.
    pub fn observe(&mut self, name: &str, value: FieldValue)
        ensures
            final(self).entries() == observed(
                old(self).entries(),
                old(self).join_fields,
                old(self).span_format,
                name@,
                value@,
            ),
            final(self).join_fields == old(self).join_fields,
            final(self).span_format == old(self).span_format,
            old(self).wf() ==> final(self).wf(),
    {
        let chars = chars_of(name);
        let log = chars_of("log.");
        let raw = chars_of("r#");
        if has_prefix(chars.as_slice(), log.as_slice()) {
            // A field of the logging bridge: not stored.
        } else if has_prefix(chars.as_slice(), raw.as_slice()) {
            proof {
                reveal_strlit("r#");
            }
            let rest = copy_range(chars.as_slice(), 2, chars.len());
            let stripped = string_of(rest.as_slice());
            self.merge(stripped.as_str(), value);
        } else {
            self.merge(name, value);
        }
    }

    /// Visit a signed 64-bit integer value.
    pub fn record_i64(&mut self, name: &str, value: i64)
        ensures
            final(self).entries() == observed(
                old(self).entries(),
                old(self).join_fields,
                old(self).span_format,
                name@,
                Value::Int(value),
            ),
            final(self).join_fields == old(self).join_fields,
            final(self).span_format == old(self).span_format,
            old(self).wf() ==> final(self).wf(),
    {
        self.observe(name, FieldValue::Int(value))
    }

    /// Visit an unsigned 64-bit integer value.
    pub fn record_u64(&mut self, name: &str, value: u64)
        ensures
            final(self).entries() == observed(
                old(self).entries(),
                old(self).join_fields,
                old(self).span_format,
                name@,
                Value::UInt(value),
            ),
            final(self).join_fields == old(self).join_fields,
            final(self).span_format == old(self).span_format,
            old(self).wf() ==> final(self).wf(),
    {
        self.observe(name, FieldValue::UInt(value))
    }

    /// Visit a floating-point value, given as its decimal text.
    pub fn record_float(&mut self, name: &str, text: &str)
        ensures
            final(self).entries() == observed(
                old(self).entries(),
                old(self).join_fields,
                old(self).span_format,
                name@,
                Value::Float(text@),
            ),
            final(self).join_fields == old(self).join_fields,
            final(self).span_format == old(self).span_format,
            old(self).wf() ==> final(self).wf(),
    {
        self.observe(name, FieldValue::Float(text.to_owned()))
    }

    /// Visit a boolean value.
    pub fn record_bool(&mut self, name: &str, value: bool)
        ensures
            final(self).entries() == observed(
                old(self).entries(),
                old(self).join_fields,
                old(self).span_format,
                name@,
                Value::Bool(value),
            ),
            final(self).join_fields == old(self).join_fields,
            final(self).span_format == old(self).span_format,
            old(self).wf() ==> final(self).wf(),
    {
        self.observe(name, FieldValue::Bool(value))
    }

    /// Visit a string value.
    pub fn record_str(&mut self, name: &str, value: &str)
        ensures
            final(self).entries() == observed(
                old(self).entries(),
                old(self).join_fields,
                old(self).span_format,
                name@,
                Value::Str(value@),
            ),
            final(self).join_fields == old(self).join_fields,
            final(self).span_format == old(self).span_format,
            old(self).wf() ==> final(self).wf(),
    {
        self.observe(name, FieldValue::Str(value.to_owned()))
    }

    /// Visit a value of any other type, given as its debug representation.
    pub fn record_debug(&mut self, name: &str, value: &str)
        ensures
            final(self).entries() == observed(
                old(self).entries(),
                old(self).join_fields,
                old(self).span_format,
                name@,
                Value::Debug(value@),
            ),
            final(self).join_fields == old(self).join_fields,
            final(self).span_format == old(self).span_format,
            old(self).wf() ==> final(self).wf(),
    {
        self.observe(name, FieldValue::Debug(value.to_owned()))
    }

    /// Records each of `fields`, in order.
    pub fn record_all(&mut self, fields: &[Field])
        ensures
            final(self).entries() == observed_all(
                old(self).entries(),
                old(self).join_fields,
                old(self).span_format,
                entries_of(fields@),
            ),
            final(self).join_fields == old(self).join_fields,
            final(self).span_format == old(self).span_format,
            old(self).wf() ==> final(self).wf(),
    {
        let mut i: usize = 0;
        while i < fields.len()
            invariant
                i <= fields.len(),
                self.join_fields == old(self).join_fields,
                self.span_format == old(self).span_format,
                old(self).wf() ==> self.wf(),
                self.entries() == observed_all(
                    old(self).entries(),
                    old(self).join_fields,
                    old(self).span_format,
                    entries_of(fields@).take(i as int),
                ),
            decreases fields.len() - i,
        {
            let ghost next = entries_of(fields@).take(i + 1);
            assert(next.drop_last() =~= entries_of(fields@).take(i as int));
            self.observe(fields[i].name.as_str(), fields[i].value.clone());
            i = i + 1;
        }
        assert(entries_of(fields@).take(fields.len() as int) =~= entries_of(fields@));
    }
}

/// The index of a name lies within the entries, points at that name where it
/// is below their number, and no earlier entry has the name.
pub proof fn lemma_index_of<T>(entries: Seq<(Seq<char>, T)>, name: Seq<char>)
    ensures
        0 <= index_of(entries, name) <= entries.len(),
        index_of(entries, name) < entries.len() ==> entries[index_of(entries, name)].0 == name,
        forall|j: int| 0 <= j < index_of(entries, name) ==> (#[trigger] entries[j]).0 != name,
    decreases entries.len(),
{
    if entries.len() > 0 && entries[0].0 != name {
        let rest = entries.drop_first();
        lemma_index_of(rest, name);
        assert forall|j: int| 0 <= j < index_of(entries, name) implies (#[trigger] entries[j]).0
            != name by {
            if j > 0 {
                assert(entries[j] == rest[j - 1]);
            }
        }
    }
}

/// An index that points at the first entry of a name, or past the entries
/// where none has it, is the index of that name.
pub proof fn lemma_index_of_is<T>(entries: Seq<(Seq<char>, T)>, name: Seq<char>, i: int)
    requires
        0 <= i <= entries.len(),
        i < entries.len() ==> entries[i].0 == name,
        forall|j: int| 0 <= j < i ==> (#[trigger] entries[j]).0 != name,
    ensures
        index_of(entries, name) == i,
    decreases entries.len(),
{
    if entries.len() > 0 && i > 0 {
        assert(entries[0].0 != name);
        let rest = entries.drop_first();
        assert forall|j: int| 0 <= j < i - 1 implies (#[trigger] rest[j]).0 != name by {
            assert(rest[j] == entries[j + 1]);
        }
        lemma_index_of_is(rest, name, i - 1);
    }
}

/// What was stored under a name is what a lookup of that name gives, and the
/// value of every other name is as before.
pub proof fn lemma_stored<T>(entries: Seq<(Seq<char>, T)>, name: Seq<char>, value: T, other: Seq<char>)
    ensures
        lookup(stored(entries, name, value), name) == Some(value),
        other != name ==> lookup(stored(entries, name, value), other) == lookup(
            entries,
            other,
        ),
        unique_names(entries) ==> unique_names(stored(entries, name, value)),
{
    let after = stored(entries, name, value);
    let i = index_of(entries, name);
    lemma_index_of(entries, name);
    assert(after[i] == (name, value));
    assert forall|j: int| 0 <= j < i implies (#[trigger] after[j]).0 != name by {
        assert(after[j] == entries[j]);
    }
    lemma_index_of_is(after, name, i);
    if other != name {
        let k = index_of(entries, other);
        lemma_index_of(entries, other);
        assert forall|j: int| 0 <= j < k implies (#[trigger] after[j]).0 != other by {
            if j < entries.len() {
                assert(j == i || after[j] == entries[j]);
            }
        }
        if k < entries.len() {
            assert(k != i);
            assert(after[k] == entries[k]);
            lemma_index_of_is(after, other, k);
        } else {
            lemma_index_of_is(after, other, after.len() as int);
        }
    }
    if unique_names(entries) {
        assert forall|a: int, b: int| 0 <= a < b < after.len() implies after[a].0 != after[b].0 by {
            if i < entries.len() {
                assert(after[a].0 == entries[a].0);
                assert(after[b].0 == entries[b].0);
            } else {
                if b == entries.len() {
                    assert(after[a] == entries[a]);
                }
            }
        }
    }
}

/// A lookup in entries with one more at the end: what the lookup gave
/// before, or the new entry where the name was not there.
pub proof fn lemma_lookup_push<T>(entries: Seq<(Seq<char>, T)>, last: (Seq<char>, T), name: Seq<char>)
    ensures
        lookup(entries.push(last), name) == (if lookup(entries, name) is Some {
            lookup(entries, name)
        } else if last.0 == name {
            Some(last.1)
        } else {
            None
        }),
{
    let longer = entries.push(last);
    let i = index_of(entries, name);
    lemma_index_of(entries, name);
    assert forall|j: int| 0 <= j < i implies (#[trigger] longer[j]).0 != name by {
        assert(longer[j] == entries[j]);
    }
    if i < entries.len() {
        assert(longer[i] == entries[i]);
        lemma_index_of_is(longer, name, i);
    } else if last.0 == name {
        lemma_index_of_is(longer, name, i);
    } else {
        lemma_index_of_is(longer, name, i + 1);
    }
}

/// A lookup in two lists of entries, one after the other: the first list
/// answers where it has the name, the second where it has not.
pub proof fn lemma_lookup_concat<T>(
    first: Seq<(Seq<char>, T)>,
    second: Seq<(Seq<char>, T)>,
    name: Seq<char>,
)
    ensures
        lookup(first + second, name) == (if lookup(first, name) is Some {
            lookup(first, name)
        } else {
            lookup(second, name)
        }),
    decreases second.len(),
{
    if second.len() == 0 {
        assert(first + second =~= first);
    } else {
        let init = second.drop_last();
        lemma_lookup_concat(first, init, name);
        lemma_lookup_push(first + init, second.last(), name);
        lemma_lookup_push(init, second.last(), name);
        assert((first + init).push(second.last()) =~= first + second);
        assert(init.push(second.last()) =~= second);
    }
}

/// Recording a list of one field is recording that field.
pub proof fn lemma_observed_one(
    entries: Entries,
    join_fields: JoinFields,
    span_format: SpanFormat,
    field: (Seq<char>, Value),
)
    ensures
        observed_all(entries, join_fields, span_format, seq![field]) == observed(
            entries,
            join_fields,
            span_format,
            field.0,
            field.1,
        ),
{
    reveal_with_fuel(observed_all, 2);
    assert(seq![field].drop_last() =~= Entries::empty());
    assert(seq![field].last() == field);
}

/// Recording a field keeps the names unique and keeps every name that was
/// there: a storage only grows.
pub proof fn lemma_observed_keeps(
    entries: Entries,
    join_fields: JoinFields,
    span_format: SpanFormat,
    name: Seq<char>,
    value: Value,
    other: Seq<char>,
)
    ensures
        unique_names(entries) ==> unique_names(
            observed(entries, join_fields, span_format, name, value),
        ),
        lookup(entries, other) is Some ==> lookup(
            observed(entries, join_fields, span_format, name, value),
            other,
        ) is Some,
        stored_name(name) != Some(other) ==> lookup(
            observed(entries, join_fields, span_format, name, value),
            other,
        ) == lookup(entries, other),
{
    match stored_name(name) {
        None => {},
        Some(n) => {
            let v = merged(lookup(entries, n), value, join_separator(join_fields, span_format, n));
            lemma_stored(entries, n, v, other);
        },
    }
}

/// Recording fields keeps the names unique and keeps every name that was
/// there.
pub proof fn lemma_observed_all_keeps(
    entries: Entries,
    join_fields: JoinFields,
    span_format: SpanFormat,
    fields: Entries,
    other: Seq<char>,
)
    ensures
        unique_names(entries) ==> unique_names(
            observed_all(entries, join_fields, span_format, fields),
        ),
        lookup(entries, other) is Some ==> lookup(
            observed_all(entries, join_fields, span_format, fields),
            other,
        ) is Some,
    decreases fields.len(),
{
    if fields.len() > 0 {
        lemma_observed_all_keeps(entries, join_fields, span_format, fields.drop_last(), other);
        lemma_observed_keeps(
            observed_all(entries, join_fields, span_format, fields.drop_last()),
            join_fields,
            span_format,
            fields.last().0,
            fields.last().1,
            other,
        );
    }
}

/// A string recorded twice under one name. After the first time the field
/// holds a string: what the first string and the value before it merge to.
/// After the second time it holds that string, the separator and the second
/// string where a separator applies to the name, and the second string alone
/// where none does. `name` is the name as it is stored: any name but one of the logging
/// bridge, and a raw identifier without its marker.
pub proof fn lemma_record_twice(
    entries: Entries,
    join_fields: JoinFields,
    span_format: SpanFormat,
    given: Seq<char>,
    name: Seq<char>,
    first: Seq<char>,
    second: Seq<char>,
)
    requires
        stored_name(given) == Some(name),
    ensures
        ({
            let once = observed(entries, join_fields, span_format, given, Value::Str(first));
            let twice = observed(once, join_fields, span_format, given, Value::Str(second));
            &&& lookup(once, name) matches Some(Value::Str(held))
            &&& Value::Str(held) == merged(
                lookup(entries, name),
                Value::Str(first),
                join_separator(join_fields, span_format, name),
            )
            &&& lookup(twice, name) == Some(
                match join_separator(join_fields, span_format, name) {
                    Some(sep) => Value::Str(held + sep + second),
                    None => Value::Str(second),
                },
            )
        }),
{
    let sep = join_separator(join_fields, span_format, name);
    let held = merged(lookup(entries, name), Value::Str(first), sep);
    let once = observed(entries, join_fields, span_format, given, Value::Str(first));
    lemma_stored(entries, name, held, name);
    lemma_stored(once, name, merged(lookup(once, name), Value::Str(second), sep), name);
}

/// Under `JoinFields::All` with separator `sep`, a field recorded as the
/// string `first` and then as the string `second` holds
/// `first + sep + second`; under `JoinFields::Overwrite` it holds `second`.
///
/// This is said of a field that held no string before, and of the span
/// field only where the span format resolves it as the field policy would:
/// the span field goes by the span format.
pub proof fn lemma_join_all_or_overwrite(
    entries: Entries,
    join_fields: JoinFields,
    span_format: SpanFormat,
    given: Seq<char>,
    name: Seq<char>,
    first: Seq<char>,
    second: Seq<char>,
)
    requires
        stored_name(given) == Some(name),
        join_fields is All ==> !(lookup(entries, name) matches Some(v) && v.text() is Some),
        join_fields matches JoinFields::All(sep) ==> join_separator(
            join_fields,
            span_format,
            name,
        ) == Some(sep@),
        join_fields is Overwrite ==> join_separator(join_fields, span_format, name) is None,
    ensures
        ({
            let once = observed(entries, join_fields, span_format, given, Value::Str(first));
            let twice = observed(once, join_fields, span_format, given, Value::Str(second));
            &&& join_fields matches JoinFields::All(sep) ==> lookup(twice, name) == Some(
                Value::Str(first + sep@ + second),
            )
            &&& join_fields is Overwrite ==> lookup(twice, name) == Some(Value::Str(second))
        }),
{
    lemma_record_twice(entries, join_fields, span_format, given, name, first, second);
}

} // verus!
