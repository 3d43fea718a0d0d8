use traceon::pretty::{pretty_fields, sort_lines, widest_key, write_block};
use traceon::record::{distinct_lines, find_line, json_record};
use traceon::{
    builder, Case, Event, Field, FieldValue, FormatError, JoinFields, JsonStorage, Level,
    LevelFormat, Line, Metadata, SecondsFormat, SpanFormat, TimeFormat, TimeZone, Timestamp,
    Traceon,
};

fn text(s: &str) -> FieldValue {
    FieldValue::Str(s.to_string())
}

fn message(s: &str) -> Field {
    Field::new("message", FieldValue::Debug(s.to_string()))
}

fn now() -> Timestamp {
    Timestamp::new(1_672_574_869, 384_925_000, 3600).unwrap()
}

fn event(level: Level, fields: Vec<Field>) -> Event {
    Event {
        metadata: Metadata {
            level,
            module: Some("app::jobs".to_string()),
            file: Some("src/jobs.rs".to_string()),
            line: Some(68),
        },
        fields,
    }
}

fn line(key: &str, text: &str) -> Line {
    Line { key: key.to_string(), text: text.to_string() }
}

fn written(config: &Traceon, event: &Event, span: Option<&JsonStorage>) -> String {
    String::from_utf8(config.on_event(event, span, &now()).unwrap()).unwrap()
}

fn json_config() -> Traceon {
    let mut config = builder();
    let _ = config.json();
    config
}

#[test]
fn a_json_record_shows_time_level_and_fields_in_order() {
    let config = json_config();
    let event = event(Level::Info, vec![message("hello"), Field::new("answer", FieldValue::UInt(42))]);
    assert_eq!(
        written(&config, &event, None),
        "{\"time\":\"2023-01-01T12:07:49.384925+00:00\",\"level\":\"INFO\",\"message\":\"hello\",\"answer\":42}\n"
    );
}

#[test]
fn a_json_record_shows_module_and_file_when_asked() {
    let mut config = json_config();
    let _ = config.module().file();
    let event = event(Level::Warn, vec![message("hello")]);
    assert_eq!(
        written(&config, &event, None),
        "{\"time\":\"2023-01-01T12:07:49.384925+00:00\",\"level\":\"WARN\",\"module\":\"app::jobs\",\"file\":\"src/jobs.rs:68\",\"message\":\"hello\"}\n"
    );
}

#[test]
fn a_missing_place_is_empty_and_line_zero() {
    let mut config = json_config();
    let _ = config.module().file().time(TimeFormat::Off).level(LevelFormat::Off);
    let event = Event {
        metadata: Metadata { level: Level::Info, module: None, file: None, line: None },
        fields: vec![],
    };
    assert_eq!(written(&config, &event, None), "{\"module\":\"\",\"file\":\":0\"}\n");
}

#[test]
fn an_empty_record_is_an_empty_object() {
    let mut config = json_config();
    let _ = config.time(TimeFormat::Off).level(LevelFormat::Off);
    let event = event(Level::Info, vec![]);
    assert_eq!(written(&config, &event, None), "{}\n");
}

#[test]
fn a_json_record_shows_the_fields_of_the_span_after_those_of_the_event() {
    let config = json_config();
    let span = config.on_new_span(None, "job", &[Field::new("id", FieldValue::Int(7))]);
    let event = event(Level::Info, vec![message("hello"), Field::new("ok", FieldValue::Bool(true))]);
    assert_eq!(
        written(&config, &event, Some(&span)),
        "{\"time\":\"2023-01-01T12:07:49.384925+00:00\",\"level\":\"INFO\",\"message\":\"hello\",\"ok\":true,\"span\":\"job\",\"id\":7}\n"
    );
}

#[test]
fn the_level_is_shown_in_the_chosen_format() {
    let mut config = json_config();
    let _ = config.time(TimeFormat::Off);
    let event = event(Level::Error, vec![]);
    assert_eq!(written(&config, &event, None), "{\"level\":\"ERROR\"}\n");
    let _ = config.level(LevelFormat::Lowercase);
    assert_eq!(written(&config, &event, None), "{\"level\":\"error\"}\n");
    let _ = config.level(LevelFormat::Number);
    assert_eq!(written(&config, &event, None), "{\"level\":50}\n");
    let _ = config.level(LevelFormat::Off);
    assert_eq!(written(&config, &event, None), "{}\n");
}

#[test]
fn every_level_has_its_number_in_a_record() {
    let mut config = json_config();
    let _ = config.time(TimeFormat::Off).level(LevelFormat::Number);
    let levels = [(Level::Trace, 10), (Level::Debug, 20), (Level::Info, 30), (Level::Warn, 40), (Level::Error, 50)];
    for (level, number) in levels {
        assert_eq!(written(&config, &event(level, vec![]), None), format!("{{\"level\":{}}}\n", number));
    }
    let _ = config.json = false;
    for (level, number) in levels {
        let text = written(&config, &event(level, vec![message("m")]), None);
        assert!(text.contains(&format!("{} m", number)), "{}", text);
    }
}

#[test]
fn the_time_is_shown_in_the_chosen_zone() {
    let mut config = json_config();
    let _ = config.level(LevelFormat::Off).time(TimeFormat::PrettyTime);
    let event = event(Level::Info, vec![]);
    assert_eq!(written(&config, &event, None), "{\"time\":\"12:07:49\"}\n");
    let _ = config.timezone(TimeZone::Local);
    assert_eq!(written(&config, &event, None), "{\"time\":\"13:07:49\"}\n");
    let _ = config.time(TimeFormat::EpochMilliseconds);
    assert_eq!(written(&config, &event, None), "{\"time\":\"1672574869384\"}\n");
}

#[test]
fn the_message_goes_by_the_message_key() {
    let mut config = json_config();
    let _ = config.time(TimeFormat::Off).level(LevelFormat::Off).message_key("msg");
    let event = event(Level::Info, vec![message("the message key is now msg")]);
    assert_eq!(written(&config, &event, None), "{\"msg\":\"the message key is now msg\"}\n");
}

#[test]
fn keys_are_put_in_the_chosen_case() {
    let fields = || {
        vec![
            message("m"),
            Field::new("PascalCase", text("test")),
            Field::new("camelCase", text("test")),
            Field::new("snake_case", text("test")),
            Field::new("SCREAMING_SNAKE_CASE", text("test")),
        ]
    };
    let mut config = json_config();
    let _ = config.time(TimeFormat::Off).module().case(Case::Pascal);
    let span = config.on_new_span(None, "job", &[]);
    assert_eq!(
        written(&config, &event(Level::Info, fields()), Some(&span)),
        "{\"Level\":\"INFO\",\"Module\":\"app::jobs\",\"Message\":\"m\",\"PascalCase\":\"test\",\"CamelCase\":\"test\",\"SnakeCase\":\"test\",\"ScreamingSnakeCase\":\"test\",\"Span\":\"job\"}\n"
    );
    let _ = config.case(Case::Camel);
    let span = config.on_new_span(None, "job", &[]);
    assert_eq!(
        written(&config, &event(Level::Info, fields()), Some(&span)),
        "{\"level\":\"INFO\",\"module\":\"app::jobs\",\"message\":\"m\",\"pascalCase\":\"test\",\"camelCase\":\"test\",\"snakeCase\":\"test\",\"screamingSnakeCase\":\"test\",\"span\":\"job\"}\n"
    );
    let _ = config.case(Case::Snake);
    assert_eq!(
        written(&config, &event(Level::Info, fields()), Some(&span)),
        "{\"level\":\"INFO\",\"module\":\"app::jobs\",\"message\":\"m\",\"pascal_case\":\"test\",\"camel_case\":\"test\",\"snake_case\":\"test\",\"screaming_snake_case\":\"test\",\"span\":\"job\"}\n"
    );
}

#[test]
fn under_pascal_case_the_time_key_is_capitalised() {
    let mut config = json_config();
    let _ = config.case(Case::Pascal).level(LevelFormat::Off).file().time(TimeFormat::EpochSeconds);
    assert_eq!(
        written(&config, &event(Level::Info, vec![]), None),
        "{\"Time\":\"1672574869\",\"File\":\"src/jobs.rs:68\"}\n"
    );
}

#[test]
fn a_key_is_shown_once_and_the_first_source_wins() {
    let mut config = json_config();
    let _ = config.time(TimeFormat::Off);
    let span = config.on_new_span(
        None,
        "job",
        &[Field::new("id", FieldValue::Int(1)), Field::new("level", text("from span")), Field::new("only", text("span"))],
    );
    let event = event(
        Level::Info,
        vec![Field::new("id", FieldValue::Int(2)), Field::new("level", text("from event"))],
    );
    assert_eq!(
        written(&config, &event, Some(&span)),
        "{\"level\":\"INFO\",\"id\":2,\"span\":\"job\",\"only\":\"span\"}\n"
    );
}

#[test]
fn keys_that_fall_together_in_the_chosen_case_are_shown_once() {
    let mut config = json_config();
    let _ = config.time(TimeFormat::Off).level(LevelFormat::Off).case(Case::Snake);
    let event = event(
        Level::Info,
        vec![Field::new("userId", FieldValue::Int(1)), Field::new("user_id", FieldValue::Int(2))],
    );
    assert_eq!(written(&config, &event, None), "{\"user_id\":1}\n");
}

#[test]
fn the_span_field_is_taken_from_the_span() {
    let mut config = json_config();
    let _ = config.time(TimeFormat::Off).level(LevelFormat::Off);
    let span = config.on_new_span(None, "job", &[]);
    let event = event(Level::Info, vec![Field::new("span", text("from event")), Field::new("x", FieldValue::Int(1))]);
    assert_eq!(written(&config, &event, Some(&span)), "{\"x\":1,\"span\":\"job\"}\n");
    assert_eq!(written(&config, &event, None), "{\"span\":\"from event\",\"x\":1}\n");
    let _ = config.span(SpanFormat::Off);
    let unnamed = config.on_new_span(None, "job", &[Field::new("y", FieldValue::Int(2))]);
    assert_eq!(written(&config, &event, Some(&unnamed)), "{\"span\":\"from event\",\"x\":1,\"y\":2}\n");
}

#[test]
fn on_an_event_a_field_recorded_twice_keeps_the_later_value() {
    let mut config = json_config();
    let _ = config.time(TimeFormat::Off).level(LevelFormat::Off).join_fields(JoinFields::All("||"));
    let event = event(Level::Info, vec![Field::new("a", text("1")), Field::new("b", text("x")), Field::new("a", text("2"))]);
    assert_eq!(written(&config, &event, None), "{\"a\":\"2\",\"b\":\"x\"}\n");
}

#[test]
fn strings_are_escaped_in_a_json_record() {
    let mut config = json_config();
    let _ = config.time(TimeFormat::Off).level(LevelFormat::Off);
    let event = event(Level::Info, vec![message("two\nlines"), Field::new("a \"key\"", text("back\\slash"))]);
    let text = written(&config, &event, None);
    assert_eq!(text, "{\"message\":\"two\\nlines\",\"a \\\"key\\\"\":\"back\\\\slash\"}\n");
    let parsed: serde_json::Value = serde_json::from_str(text.trim_end()).unwrap();
    assert_eq!(parsed.get("message").and_then(|v| v.as_str()), Some("two\nlines"));
    assert_eq!(parsed.get("a \"key\"").and_then(|v| v.as_str()), Some("back\\slash"));
}

#[test]
fn a_json_record_is_one_line() {
    let mut config = json_config();
    let _ = config.module().file().message_key("the\nmessage");
    let span = config.on_new_span(None, "a\nspan", &[Field::new("multi\nline", text("x\ny\r\n"))]);
    let event = Event {
        metadata: Metadata {
            level: Level::Info,
            module: Some("a\nmodule".to_string()),
            file: Some("a\nfile".to_string()),
            line: Some(1),
        },
        fields: vec![message("two\nlines"), Field::new("f", FieldValue::Float("1\n2".to_string()))],
    };
    let text = written(&config, &event, Some(&span));
    assert!(text.ends_with('\n'));
    assert!(!text.trim_end_matches('\n').contains('\n'));
    assert_eq!(text.matches('\n').count(), 1);
    assert!(serde_json::from_str::<serde_json::Value>(text.trim_end()).is_ok());
}

#[test]
fn pretty_output_starts_with_the_painted_message() {
    let config = builder();
    let event = event(Level::Info, vec![message("hello")]);
    assert_eq!(
        written(&config, &event, None),
        "\u{1b}[32m2023-01-01T12:07:49.384925+00:00 INFO hello\u{1b}[0m\n\n"
    );
}

#[test]
fn each_level_is_painted_in_its_colour() {
    let mut config = builder();
    let _ = config.time(TimeFormat::Off);
    let shown = |level| written(&config, &event(level, vec![message("m")]), None);
    assert_eq!(shown(Level::Trace), "\u{1b}[35mTRACE m\u{1b}[0m\n\n");
    assert_eq!(shown(Level::Debug), "\u{1b}[34mDEBUG m\u{1b}[0m\n\n");
    assert_eq!(shown(Level::Info), "\u{1b}[32mINFO m\u{1b}[0m\n\n");
    assert_eq!(shown(Level::Warn), "\u{1b}[33mWARN m\u{1b}[0m\n\n");
    assert_eq!(shown(Level::Error), "\u{1b}[31mERROR m\u{1b}[0m\n\n");
}

#[test]
fn pretty_output_sorts_and_aligns_the_fields() {
    let mut config = builder();
    let _ = config.time(TimeFormat::PrettyTime).file().module();
    let span = config.on_new_span(None, "span_1", &[Field::new("field_b", text("first"))]);
    let event = event(Level::Info, vec![message("testing"), Field::new("a", FieldValue::Int(1))]);
    assert_eq!(
        written(&config, &event, Some(&span)),
        "\u{1b}[32m12:07:49 INFO testing\u{1b}[0m\n    a:       1\n    field_b: first\n    file:    src/jobs.rs:68\n    module:  app::jobs\n    span:    span_1\n\n"
    );
}

#[test]
fn pretty_output_measures_keys_in_bytes() {
    let mut config = builder();
    let _ = config.time(TimeFormat::Off).level(LevelFormat::Off);
    let event = event(Level::Info, vec![message("m"), Field::new("é", FieldValue::Int(1)), Field::new("abc", FieldValue::Int(2))]);
    assert_eq!(
        written(&config, &event, None),
        "\u{1b}[32mm\u{1b}[0m\n    abc: 2\n    é:  1\n\n"
    );
}

#[test]
fn pretty_output_without_message_says_so() {
    let mut config = builder();
    let _ = config.time(TimeFormat::Off).level(LevelFormat::Lowercase);
    let event = event(Level::Debug, vec![Field::new("a", FieldValue::Bool(false))]);
    assert_eq!(
        written(&config, &event, None),
        "\u{1b}[34mdebug event triggered\u{1b}[0m\n    a: false\n\n"
    );
}

#[test]
fn the_message_line_is_trimmed() {
    let mut config = builder();
    let _ = config.time(TimeFormat::Off).level(LevelFormat::Off);
    let event = event(Level::Info, vec![message("  spaced out  ")]);
    assert_eq!(written(&config, &event, None), "\u{1b}[32mspaced out\u{1b}[0m\n\n");
    let empty = Event { metadata: event.metadata, fields: vec![message("")] };
    assert_eq!(written(&config, &empty, None), "\u{1b}[32m\u{1b}[0m\n\n");
}

#[test]
fn pretty_output_shows_line_breaks_and_quotes_as_they_are() {
    let mut config = builder();
    let _ = config.time(TimeFormat::Off).level(LevelFormat::Off);
    let event = event(
        Level::Info,
        vec![message("a \"quoted\" word"), Field::new("text", text("first\nsecond"))],
    );
    assert_eq!(
        written(&config, &event, None),
        "\u{1b}[32ma \"quoted\" word\u{1b}[0m\n    text: first\n    second\n\n"
    );
}

#[test]
fn pretty_output_leaves_the_message_out_of_the_fields() {
    let mut config = builder();
    let _ = config.time(TimeFormat::Off).level(LevelFormat::Off).case(Case::Pascal);
    let span = config.on_new_span(None, "job", &[Field::new("MESSAGE", text("from span"))]);
    let event = event(Level::Info, vec![message("m"), Field::new("x", FieldValue::Int(1))]);
    assert_eq!(
        written(&config, &event, Some(&span)),
        "\u{1b}[32mm\u{1b}[0m\n    Span: job\n    X:    1\n\n"
    );
}

#[test]
fn a_time_pattern_that_cannot_be_rendered_drops_the_event() {
    let mut config = builder();
    let _ = config.time(TimeFormat::CustomFormat("%Q"));
    let event = event(Level::Info, vec![message("m")]);
    let result = config.on_event(&event, None, &now());
    assert!(matches!(result, Err(FormatError::TimePattern)));
    assert_eq!(result.unwrap_err().describe(), "the time pattern could not be rendered");
    let mut visitor = JsonStorage::default();
    assert!(matches!(config.serialize(&event, None, &mut visitor, &now()), Err(FormatError::TimePattern)));
    assert_eq!(visitor.get("message"), Some(&FieldValue::Debug("m".to_string())));
}

#[test]
fn serialize_leaves_the_line_break_to_the_caller() {
    let mut config = json_config();
    let _ = config.time(TimeFormat::Off).level(LevelFormat::Off);
    let event = event(Level::Info, vec![message("m")]);
    let mut visitor = JsonStorage::new(JoinFields::Overwrite, SpanFormat::Overwrite);
    let bytes = config.serialize(&event, None, &mut visitor, &now()).unwrap();
    assert_eq!(String::from_utf8(bytes).unwrap(), "{\"message\":\"m\"}");
    assert_eq!(visitor.values().len(), 1);
}

#[test]
fn formatting_twice_gives_the_same_bytes() {
    for json in [true, false] {
        let mut config = builder();
        let _ = config.file().module().case(Case::Camel);
        config.json = json;
        let span = config.on_new_span(None, "job", &[Field::new("some_id", FieldValue::Int(7))]);
        let event = event(Level::Warn, vec![message("again"), Field::new("f", FieldValue::Float("0.25".to_string()))]);
        let first = config.on_event(&event, Some(&span), &now()).unwrap();
        let second = config.on_event(&event, Some(&span), &now()).unwrap();
        assert_eq!(first, second);
    }
}

#[test]
fn only_the_time_differs_between_two_instants() {
    let config = json_config();
    let span = config.on_new_span(None, "job", &[Field::new("id", FieldValue::Int(7))]);
    let event = event(Level::Warn, vec![message("again")]);
    let later = Timestamp::new(1_672_574_870, 0, 0).unwrap();
    let first = String::from_utf8(config.on_event(&event, Some(&span), &now()).unwrap()).unwrap();
    let second = String::from_utf8(config.on_event(&event, Some(&span), &later).unwrap()).unwrap();
    assert_eq!(first, "{\"time\":\"2023-01-01T12:07:49.384925+00:00\",\"level\":\"WARN\",\"message\":\"again\",\"span\":\"job\",\"id\":7}\n");
    assert_eq!(second, "{\"time\":\"2023-01-01T12:07:50+00:00\",\"level\":\"WARN\",\"message\":\"again\",\"span\":\"job\",\"id\":7}\n");
}

#[test]
fn lines_are_found_by_key() {
    let lines = vec![line("a", "1"), line("b", "2"), line("a", "3")];
    assert_eq!(find_line(&lines, "a"), 0);
    assert_eq!(find_line(&lines, "b"), 1);
    assert_eq!(find_line(&lines, "c"), 3);
    assert_eq!(distinct_lines(lines), vec![line("a", "1"), line("b", "2")]);
    assert_eq!(distinct_lines(vec![]), vec![]);
}

#[test]
fn lines_are_sorted_by_key_and_stay_in_order_within_a_key() {
    let lines = vec![line("b", "1"), line("a", "2"), line("c", "3"), line("a", "4"), line("B", "5"), line("", "6")];
    assert_eq!(
        sort_lines(lines),
        vec![line("", "6"), line("B", "5"), line("a", "2"), line("a", "4"), line("b", "1"), line("c", "3")]
    );
    assert_eq!(sort_lines(vec![]), vec![]);
}

#[test]
fn a_block_is_aligned_to_the_widest_key() {
    let lines = vec![line("long_key", "1"), line("k", "2")];
    assert_eq!(widest_key(&lines), 8);
    assert_eq!(widest_key(&vec![]), 0);
    assert_eq!(write_block(&lines, 8), "    long_key: 1\n    k:        2\n");
    assert_eq!(write_block(&lines, 10), "    long_key:   1\n    k:          2\n");
    assert_eq!(pretty_fields(lines), "    k:        2\n    long_key: 1\n");
    assert_eq!(pretty_fields(vec![]), "");
}

#[test]
fn lines_are_written_as_one_object() {
    assert_eq!(json_record(&vec![]).unwrap(), "{}");
    assert_eq!(
        json_record(&vec![line("a", "1"), line("b \"c\"", "\"x\"")]).unwrap(),
        "{\"a\":1,\"b \\\"c\\\"\":\"x\"}"
    );
}

#[test]
fn the_parts_of_a_record_can_be_had_one_by_one() {
    let mut config = json_config();
    let _ = config.case(Case::Pascal).level(LevelFormat::Number);
    assert_eq!(config.level_key(), "Level");
    assert_eq!(config.file_key(), "File");
    assert_eq!(config.module_key(), "Module");
    assert_eq!(config.time_key(), "Time");
    assert_eq!(config.level_text(Level::Warn), Some("40".to_string()));
    assert_eq!(config.shown_key("message", true), "Message");
    assert_eq!(config.shown_key("some_key", false), "SomeKey");
    let _ = config.message_key("msg").case(Case::Unchanged).level(LevelFormat::Off);
    assert_eq!(config.level_key(), "level");
    assert_eq!(config.level_text(Level::Warn), None);
    assert_eq!(config.shown_key("message", true), "msg");
    assert_eq!(config.shown_key("message", false), "message");
    assert_eq!(config.time_of(&now()).unwrap(), Some("2023-01-01T12:07:49.384925+00:00".to_string()));
    let _ = config.time(TimeFormat::Off);
    assert_eq!(config.time_of(&now()).unwrap(), None);

    let mut storage = JsonStorage::default();
    storage.record_debug("message", "m");
    storage.record_i64("n", 1);
    let metadata = Metadata { level: Level::Info, module: None, file: None, line: None };
    let lines = config.record_lines(&metadata, &storage, None, &None).unwrap();
    assert_eq!(lines, vec![line("msg", "\"m\""), line("n", "1")]);
    assert_eq!(config.write_record(Level::Info, &None, &storage, lines).unwrap(), "{\"msg\":\"m\",\"n\":1}");
    let _ = config.json = false;
    assert_eq!(
        config.message_line(Level::Info, &Some("now".to_string()), &storage).unwrap(),
        "\u{1b}[32mnow m\u{1b}[0m\n"
    );
}

#[test]
fn the_plain_json_formatter_writes_level_time_span_and_file() {
    let config = Traceon::new();
    let outer = config.on_new_span(None, "outer", &[Field::new("a", FieldValue::Int(1))]);
    let inner = config.on_new_span(Some(&outer), "inner", &[Field::new("a", FieldValue::Int(2))]);
    let event = event(Level::Debug, vec![message("m")]);
    assert_eq!(
        written(&config, &event, Some(&inner)),
        "{\"time\":\"2023-01-01T12:07:49.384925Z\",\"level\":20,\"file\":\"src/jobs.rs:68\",\"message\":\"m\",\"span\":\"inner\",\"a\":2}\n"
    );
}

#[test]
fn a_custom_pattern_names_the_zone_of_the_configuration() {
    let mut config = json_config();
    let _ = config.level(LevelFormat::Off).time(TimeFormat::CustomFormat("%H %Z"));
    let event = event(Level::Info, vec![]);
    assert_eq!(written(&config, &event, None), "{\"time\":\"12 UTC\"}\n");
    let _ = config.timezone(TimeZone::Local);
    assert_eq!(written(&config, &event, None), "{\"time\":\"13 +01:00\"}\n");
}

#[test]
fn every_format_but_a_broken_pattern_gives_a_record() {
    let formats = [
        TimeFormat::Off,
        TimeFormat::EpochSeconds,
        TimeFormat::EpochMilliseconds,
        TimeFormat::EpochMicroseconds,
        TimeFormat::EpochNanoseconds,
        TimeFormat::RFC2822,
        TimeFormat::RFC3339,
        TimeFormat::RFC3339Options(SecondsFormat::AutoSi, true),
        TimeFormat::PrettyTime,
        TimeFormat::PrettyDateTime,
        TimeFormat::CustomFormat("%Y"),
    ];
    for json in [true, false] {
        for format in formats {
            let mut config = builder();
            let _ = config.time(format).file().module();
            config.json = json;
            let span = config.on_new_span(None, "job", &[Field::new("s", text("a \"b\"\n"))]);
            let event = event(Level::Info, vec![message("m"), Field::new("f", FieldValue::Float("x".to_string()))]);
            assert!(config.on_event(&event, Some(&span), &now()).is_ok());
        }
    }
}
