use traceon::{builder, Case, Field, FieldValue, JoinFields, JsonStorage, SpanFormat, Traceon};

fn text(s: &str) -> FieldValue {
    FieldValue::Str(s.to_string())
}

fn with_span(format: SpanFormat) -> Traceon {
    let mut config = builder();
    let _ = config.span(format);
    config
}

#[test]
fn span_names_are_joined_by_default() {
    let config = builder();
    let outer = config.on_new_span(None, "outer", &[]);
    assert_eq!(outer.get("span"), Some(&text("outer")));
    let inner = config.on_new_span(Some(&outer), "inner", &[]);
    assert_eq!(inner.get("span"), Some(&text("outer::inner")));
    let innermost = config.on_new_span(Some(&inner), "innermost", &[]);
    assert_eq!(innermost.get("span"), Some(&text("outer::inner::innermost")));
}

#[test]
fn span_names_are_joined_with_the_given_separator() {
    let config = with_span(SpanFormat::Join(">"));
    let outer = config.on_new_span(None, "level_1", &[]);
    let inner = config.on_new_span(Some(&outer), "level_2", &[]);
    assert_eq!(inner.get("span"), Some(&text("level_1>level_2")));
}

#[test]
fn span_names_are_overwritten_when_asked() {
    let config = with_span(SpanFormat::Overwrite);
    let outer = config.on_new_span(None, "outer", &[]);
    assert_eq!(outer.get("span"), Some(&text("outer")));
    let inner = config.on_new_span(Some(&outer), "inner", &[]);
    assert_eq!(inner.get("span"), Some(&text("inner")));
}

#[test]
fn the_span_field_can_be_turned_off() {
    let config = with_span(SpanFormat::Off);
    let outer = config.on_new_span(None, "outer", &[]);
    assert_eq!(outer.get("span"), None);
    assert!(outer.values().is_empty());
    let inner = config.on_new_span(Some(&outer), "inner", &[]);
    assert_eq!(inner.get("span"), None);
    assert!(inner.values().is_empty());
}

#[test]
fn the_span_key_is_capitalised_under_pascal_case() {
    let mut config = builder();
    let _ = config.case(Case::Pascal);
    assert_eq!(config.span_key(), "Span");
    let outer = config.on_new_span(None, "outer", &[]);
    let inner = config.on_new_span(Some(&outer), "inner", &[]);
    assert_eq!(inner.get("Span"), Some(&text("outer::inner")));
    assert_eq!(inner.get("span"), None);
    let _ = config.case(Case::Camel);
    assert_eq!(config.span_key(), "span");
}

#[test]
fn a_child_inherits_the_fields_of_its_parent() {
    let config = builder();
    let outer = config.on_new_span(None, "shaving_yaks", &[Field::new("a", FieldValue::Int(2))]);
    let inner = config.on_new_span(Some(&outer), "inner shaving", &[Field::new("b", FieldValue::Int(3))]);
    assert_eq!(inner.get("a"), Some(&FieldValue::Int(2)));
    assert_eq!(inner.get("b"), Some(&FieldValue::Int(3)));
    assert_eq!(inner.get("span"), Some(&text("shaving_yaks::inner shaving")));
    assert_eq!(outer.get("b"), None);
}

#[test]
fn a_child_overwrites_or_joins_the_fields_of_its_parent() {
    let mut config = builder();
    let _ = config.join_fields(JoinFields::Listed("||", &["field_b"]));
    let span_1 = config.on_new_span(
        None,
        "span_1",
        &[Field::new("field_a", text("first")), Field::new("field_b", text("first"))],
    );
    let span_2 = config.on_new_span(
        Some(&span_1),
        "span_2",
        &[Field::new("field_a", text("second")), Field::new("field_b", text("second"))],
    );
    assert_eq!(span_2.get("field_a"), Some(&text("second")));
    assert_eq!(span_2.get("field_b"), Some(&text("first||second")));
    assert_eq!(span_2.get("span"), Some(&text("span_1::span_2")));
}

#[test]
fn what_the_parent_records_later_does_not_reach_the_child() {
    let config = builder();
    let mut outer = config.on_new_span(None, "outer", &[Field::new("a", FieldValue::Int(1))]);
    let inner = config.on_new_span(Some(&outer), "inner", &[]);
    config.on_record(&mut outer, &[Field::new("a", FieldValue::Int(2)), Field::new("late", FieldValue::Bool(true))]);
    assert_eq!(outer.get("a"), Some(&FieldValue::Int(2)));
    assert_eq!(inner.get("a"), Some(&FieldValue::Int(1)));
    assert_eq!(inner.get("late"), None);
}

#[test]
fn a_record_merges_with_what_the_span_holds() {
    let mut config = builder();
    let _ = config.join_fields(JoinFields::All("||"));
    let mut span = config.on_new_span(None, "span", &[Field::new("field", text("A"))]);
    config.on_record(&mut span, &[Field::new("field", text("B"))]);
    assert_eq!(span.get("field"), Some(&text("A||B")));

    let overwriting = builder();
    let mut span = overwriting.on_new_span(None, "span", &[Field::new("field", text("A"))]);
    overwriting.on_record(&mut span, &[Field::new("field", text("B"))]);
    assert_eq!(span.get("field"), Some(&text("B")));
}

#[test]
fn a_child_keeps_the_policies_of_its_parent() {
    let parent = JsonStorage::new(JoinFields::All("+"), SpanFormat::Overwrite);
    let config = builder();
    let child = config.on_new_span(Some(&parent), "child", &[]);
    assert!(matches!(child.join_fields, JoinFields::All("+")));
    assert_eq!(child.span_format, SpanFormat::Overwrite);
    let orphan = config.on_new_span(None, "orphan", &[]);
    assert!(matches!(orphan.join_fields, JoinFields::Overwrite));
    assert_eq!(orphan.span_format, SpanFormat::Join("::"));
}

#[test]
fn a_span_name_replaces_an_inherited_number() {
    let config = builder();
    let mut parent = JsonStorage::default();
    parent.record_i64("span", 7);
    let child = config.on_new_span(Some(&parent), "child", &[]);
    assert_eq!(child.get("span"), Some(&text("child")));
}

#[test]
fn naming_a_span_lays_the_name_over_the_storage() {
    let config = builder();
    let mut storage = JsonStorage::default();
    config.name_span(&mut storage, "a");
    config.name_span(&mut storage, "b");
    assert_eq!(storage.get("span"), Some(&text("a::b")));
}
