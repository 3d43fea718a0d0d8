use traceon::{
    builder, Event, Field, FieldValue, JoinFields, Level, LevelFormat, Metadata, Spans, TimeFormat,
    Timestamp,
};

fn text(s: &str) -> FieldValue {
    FieldValue::Str(s.to_string())
}

fn event(message: &str) -> Event {
    Event {
        metadata: Metadata { level: Level::Info, module: None, file: None, line: None },
        fields: vec![Field::new("message", FieldValue::Debug(message.to_string()))],
    }
}

#[test]
fn identifiers_are_handed_out_in_order() {
    let config = builder();
    let mut spans = Spans::new();
    assert!(spans.get(0).is_none());
    let outer = spans.new_span(&config, None, "outer", &[]);
    let inner = spans.new_span(&config, Some(outer), "inner", &[]);
    let other = spans.new_span(&config, None, "other", &[]);
    assert_eq!((outer, inner, other), (0, 1, 2));
    assert_eq!(spans.get(inner).unwrap().get("span"), Some(&text("outer::inner")));
    assert_eq!(spans.get(other).unwrap().get("span"), Some(&text("other")));
    assert!(spans.get(3).is_none());
    assert!(spans.lookup(None).is_none());
    assert!(spans.lookup(Some(inner)).is_some());
}

#[test]
fn a_child_is_a_snapshot_of_its_parent() {
    let mut config = builder();
    let _ = config.join_fields(JoinFields::All("||"));
    let mut spans = Spans::new();
    let outer = spans.new_span(&config, None, "outer", &[Field::new("a", text("1"))]);
    let inner = spans.new_span(&config, Some(outer), "inner", &[]);
    spans.record(&config, outer, &[Field::new("a", text("2")), Field::new("late", FieldValue::Bool(true))]);
    assert_eq!(spans.get(outer).unwrap().get("a"), Some(&text("1||2")));
    assert_eq!(spans.get(inner).unwrap().get("a"), Some(&text("1")));
    assert_eq!(spans.get(inner).unwrap().get("late"), None);
    spans.record(&config, inner, &[Field::new("a", text("3"))]);
    assert_eq!(spans.get(inner).unwrap().get("a"), Some(&text("1||3")));
    assert_eq!(spans.get(outer).unwrap().get("a"), Some(&text("1||2")));
}

#[test]
fn a_closed_span_is_gone_and_its_children_stay() {
    let config = builder();
    let mut spans = Spans::new();
    let outer = spans.new_span(&config, None, "outer", &[Field::new("a", FieldValue::Int(1))]);
    let inner = spans.new_span(&config, Some(outer), "inner", &[]);
    spans.close(outer);
    assert!(spans.get(outer).is_none());
    assert_eq!(spans.get(inner).unwrap().get("a"), Some(&FieldValue::Int(1)));
    spans.close(outer);
    spans.close(17);
    assert!(spans.get(inner).is_some());
    let orphan = spans.new_span(&config, Some(outer), "orphan", &[]);
    assert_eq!(orphan, 2);
    assert_eq!(spans.get(orphan).unwrap().get("span"), Some(&text("orphan")));
    assert_eq!(spans.get(orphan).unwrap().get("a"), None);
}

#[test]
fn an_event_shows_the_fields_of_the_current_span() {
    let mut config = builder();
    let _ = config.json().time(TimeFormat::Off).level(LevelFormat::Off);
    let now = Timestamp::new(0, 0, 0).unwrap();
    let mut spans = Spans::new();
    let outer = spans.new_span(&config, None, "outer", &[Field::new("a", FieldValue::Int(1))]);
    let written = |spans: &Spans, current| {
        String::from_utf8(spans.on_event(&config, &event("m"), current, &now).unwrap()).unwrap()
    };
    assert_eq!(written(&spans, Some(outer)), "{\"message\":\"m\",\"span\":\"outer\",\"a\":1}\n");
    assert_eq!(written(&spans, None), "{\"message\":\"m\"}\n");
    spans.close(outer);
    assert_eq!(written(&spans, Some(outer)), "{\"message\":\"m\"}\n");
}
