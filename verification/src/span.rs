//! Span context propagation: what a new span inherits from its parent, and
//! how its own name and fields are laid over it.
use crate::casing::Case;
use crate::config::Traceon;
use crate::storage::{
    join_separator, lemma_observed_all_keeps, lemma_observed_one, lemma_stored, lookup, merged,
    observed, observed_all, stored, stored_name, unique_names, JoinFields, JsonStorage, SpanFormat,
};
use crate::value::{entries_of, Entries, Field, FieldValue, Value};
use vstd::prelude::*;

verus! {

/// The name of the span field as it is stored: capitalised under Pascal case.
pub open spec fn span_key(case: Case) -> Seq<char> {
    match case {
        Case::Pascal => "Span"@,
        _ => "span"@,
    }
}

/// The separator between the names of nested spans, where they are joined.
pub open spec fn span_separator(span_format: SpanFormat) -> Option<Seq<char>> {
    match span_format {
        SpanFormat::Join(sep) => Some(sep@),
        _ => None,
    }
}

/// The entries with the name of a new span laid over them. With the span
/// field off nothing changes. Otherwise the name is joined to the inherited
/// names or replaces them, as the format says.
pub open spec fn named(
    entries: Entries,
    span_format: SpanFormat,
    key: Seq<char>,
    name: Seq<char>,
) -> Entries {
    match span_format {
        SpanFormat::Off => entries,
        _ => stored(
            entries,
            key,
            merged(lookup(entries, key), Value::Str(name), span_separator(span_format)),
        ),
    }
}

/// The fields of a new span: what it inherited, its name laid over that, then
/// its own fields recorded in order under the policies of the storage.
pub open spec fn span_fields(
    config: Traceon,
    inherited: Entries,
    join_fields: JoinFields,
    span_format: SpanFormat,
    name: Seq<char>,
    attrs: Entries,
) -> Entries {
    observed_all(
        named(inherited, config.span_format, span_key(config.case), name),
        join_fields,
        span_format,
        attrs,
    )
}

/// What a span inherits: the fields of its parent, or nothing.
pub open spec fn inherited(parent: Option<&JsonStorage>) -> Entries {
    match parent {
        Some(p) => p.entries(),
        None => Seq::empty(),
    }
}

impl Traceon {
    /// The name of the span field as this configuration stores it.
    pub fn span_key(&self) -> (r: &'static str)
        ensures
            r@ == span_key(self.case),
    {
        match self.case {
            Case::Pascal => "Span",
            _ => "span",
        }
    }

    /// Lays the name of a new span over what it inherited.
    pub fn name_span(&self, storage: &mut JsonStorage, name: &str)
        ensures
            final(storage).entries() == named(
                old(storage).entries(),
                self.span_format,
                span_key(self.case),
                name@,
            ),
            final(storage).join_fields == old(storage).join_fields,
            final(storage).span_format == old(storage).span_format,
            old(storage).wf() ==> final(storage).wf(),
    {
        let key = self.span_key();
        match self.span_format {
            SpanFormat::Off => {},
            SpanFormat::Overwrite => {
                storage.insert(key, FieldValue::Str(name.to_owned()));
            },
            SpanFormat::Join(concat) => {
                let joined: Option<String> = match storage.get(key) {
                    Some(orig) => match orig.as_str() {
                        Some(orig) => {
                            let mut t = orig.to_owned();
                            t.append(concat);
                            t.append(name);
                            Some(t)
                        },
                        None => None,
                    },
                    None => None,
                };
                match joined {
                    Some(t) => storage.insert(key, FieldValue::Str(t)),
                    None => storage.insert(key, FieldValue::Str(name.to_owned())),
                }
            },
        }
    }

    /// The storage of a new span called `name` with the fields `attrs`.
    ///
    /// The fields of the parent, as they stand now, are copied: what the
    /// parent records later does not reach the child. A span without parent
    /// starts empty, with the policies of this configuration. The name of the
    /// span is laid over that, then its own fields, each through the
    /// visitation protocol.
    pub fn on_new_span(&self, parent: Option<&JsonStorage>, name: &str, attrs: &[Field]) -> (r:
        JsonStorage)
        ensures
            r.join_fields == (match parent {
                Some(p) => p.join_fields,
                None => self.join_fields,
            }),
            r.span_format == (match parent {
                Some(p) => p.span_format,
                None => self.span_format,
            }),
            r.entries() == span_fields(
                *self,
                inherited(parent),
                r.join_fields,
                r.span_format,
                name@,
                entries_of(attrs@),
            ),
            (parent matches Some(p) ==> p.wf()) ==> r.wf(),
    {
        // We want to inherit the fields from the parent span, if there is one.
        let mut visitor = match parent {
            Some(parent) => parent.clone(),
            None => JsonStorage::new(self.join_fields, self.span_format),
        };
        self.name_span(&mut visitor, name);
        // Fields on the new span should override fields on the parent span if there is a conflict.
        visitor.record_all(attrs);
        visitor
    }

    /// Records `values` on a span that exists already: each value is merged
    /// with what the span itself holds under that name.
    pub fn on_record(&self, storage: &mut JsonStorage, values: &[Field])
        ensures
            final(storage).entries() == observed_all(
                old(storage).entries(),
                old(storage).join_fields,
                old(storage).span_format,
                entries_of(values@),
            ),
            final(storage).join_fields == old(storage).join_fields,
            final(storage).span_format == old(storage).span_format,
            old(storage).wf() ==> final(storage).wf(),
    {
        storage.record_all(values);
    }
}

/// A span without fields of its own, entered under a span without fields of
/// its own: where span names are joined, the span field of the child is the
/// name of the parent, the separator and the name of the child; where they
/// are overwritten, it is the name of the child; where the span field is off,
/// the child has no span field.
pub proof fn lemma_span_names(config: Traceon, outer: Seq<char>, inner: Seq<char>)
    ensures
        ({
            let key = span_key(config.case);
            let parent = span_fields(
                config,
                Seq::empty(),
                config.join_fields,
                config.span_format,
                outer,
                Seq::empty(),
            );
            let child = span_fields(
                config,
                parent,
                config.join_fields,
                config.span_format,
                inner,
                Seq::empty(),
            );
            &&& config.span_format matches SpanFormat::Join(sep) ==> lookup(child, key) == Some(
                Value::Str(outer + sep@ + inner),
            )
            &&& config.span_format is Overwrite ==> lookup(child, key) == Some(Value::Str(inner))
            &&& config.span_format is Off ==> lookup(child, key) is None
        }),
{
    let key = span_key(config.case);
    let none = Entries::empty();
    let parent = named(none, config.span_format, key, outer);
    lemma_stored(none, key, Value::Str(outer), key);
    lemma_stored(
        parent,
        key,
        merged(lookup(parent, key), Value::Str(inner), span_separator(config.span_format)),
        key,
    );
}

/// A new span holds every field that it inherited, and its names are unique
/// where the inherited names were: the storage of a span is the union of the
/// fields of its ancestors and its own.
pub proof fn lemma_span_inherits(
    config: Traceon,
    inherited: Entries,
    join_fields: JoinFields,
    span_format: SpanFormat,
    name: Seq<char>,
    attrs: Entries,
    field: Seq<char>,
)
    ensures
        lookup(inherited, field) is Some ==> lookup(
            span_fields(config, inherited, join_fields, span_format, name, attrs),
            field,
        ) is Some,
        unique_names(inherited) ==> unique_names(
            span_fields(config, inherited, join_fields, span_format, name, attrs),
        ),
{
    let key = span_key(config.case);
    let with_name = named(inherited, config.span_format, key, name);
    lemma_stored(
        inherited,
        key,
        merged(lookup(inherited, key), Value::Str(name), span_separator(config.span_format)),
        field,
    );
    lemma_observed_all_keeps(with_name, join_fields, span_format, attrs, field);
}

/// Two nested spans, each with one field of its own under a plain name: the
/// storage of the inner span holds the field of the outer span, its own
/// field, and the span field made of both names as the span format says.
pub proof fn lemma_nested_spans(
    config: Traceon,
    outer: Seq<char>,
    outer_field: (Seq<char>, Value),
    inner: Seq<char>,
    inner_field: (Seq<char>, Value),
)
    requires
        stored_name(outer_field.0) == Some(outer_field.0),
        stored_name(inner_field.0) == Some(inner_field.0),
        outer_field.0 != inner_field.0,
        outer_field.0 != span_key(config.case),
        inner_field.0 != span_key(config.case),
    ensures
        ({
            let key = span_key(config.case);
            let parent = span_fields(
                config,
                Seq::empty(),
                config.join_fields,
                config.span_format,
                outer,
                seq![outer_field],
            );
            let child = span_fields(
                config,
                parent,
                config.join_fields,
                config.span_format,
                inner,
                seq![inner_field],
            );
            &&& lookup(child, outer_field.0) == Some(outer_field.1)
            &&& lookup(child, inner_field.0) == Some(inner_field.1)
            &&& config.span_format matches SpanFormat::Join(sep) ==> lookup(child, key) == Some(
                Value::Str(outer + sep@ + inner),
            )
            &&& config.span_format is Overwrite ==> lookup(child, key) == Some(Value::Str(inner))
            &&& config.span_format is Off ==> lookup(child, key) is None
        }),
{
    let key = span_key(config.case);
    let join_fields = config.join_fields;
    let span_format = config.span_format;
    let a = outer_field.0;
    let b = inner_field.0;
    let none = Entries::empty();
    // The outer span: its name, then its field.
    let named_outer = named(none, span_format, key, outer);
    let parent = observed(named_outer, join_fields, span_format, a, outer_field.1);
    lemma_observed_one(named_outer, join_fields, span_format, outer_field);
    assert(lookup(none, key) is None && lookup(none, a) is None);
    lemma_stored(none, key, Value::Str(outer), key);
    lemma_stored(none, key, Value::Str(outer), a);
    lemma_stored(none, key, Value::Str(outer), b);
    let held_a = merged(
        lookup(named_outer, a),
        outer_field.1,
        join_separator(join_fields, span_format, a),
    );
    lemma_stored(named_outer, a, held_a, a);
    lemma_stored(named_outer, a, held_a, b);
    lemma_stored(named_outer, a, held_a, key);
    // The inner span: its name laid over that, then its field.
    let named_inner = named(parent, span_format, key, inner);
    lemma_observed_one(named_inner, join_fields, span_format, inner_field);
    let held_key = merged(lookup(parent, key), Value::Str(inner), span_separator(span_format));
    lemma_stored(parent, key, held_key, key);
    lemma_stored(parent, key, held_key, a);
    lemma_stored(parent, key, held_key, b);
    let held_b = merged(
        lookup(named_inner, b),
        inner_field.1,
        join_separator(join_fields, span_format, b),
    );
    lemma_stored(named_inner, b, held_b, b);
    lemma_stored(named_inner, b, held_b, a);
    lemma_stored(named_inner, b, held_b, key);
}

} // verus!
