//! Events: from an event, the storage of the active span and the time to
//! the bytes of one record.
use crate::config::Traceon;
use crate::error::FormatError;
use crate::json::{json_string_text, json_value_text, lemma_json_string_printable};
use crate::level::{level_number, Level};
use crate::pretty::{head_text, message_line, pretty_block, pretty_fields};
use crate::record::{
    all_lines, core_lines, distinct, entries_or_none, field_lines, file_text, json_record,
    json_text, lemma_distinct, lemma_distinct_by_keys, lemma_distinct_keeps_first,
    lemma_distinct_printable, lemma_distinct_scalar, lemma_field_lines_lookup,
    lemma_field_lines_printable, lemma_head_keys, lemma_json_text_printable, level_key, level_text,
    lines_of, location_lines, printable_texts, record_lines, scalar_texts, span_named,
    text_or_empty, time_key, view_or_none, Line, Lines,
};
use crate::storage::{
    index_of, lemma_index_of_is, lemma_lookup_concat, lookup, observed_all, unique_names,
    JoinFields, JsonStorage, SpanFormat,
};
use crate::text::{decimal, lemma_decimal_printable, printable};
use crate::time::{shown_zone, time_convert, time_text, zone_offset, TimeFormat, Timestamp};
use crate::value::{entries_of, lemma_decimal_is_json_number, Entries, Field};
use vstd::prelude::*;
use vstd::utf8::encode_utf8;

verus! {

/// Where and how severe an event is.
#[derive(Debug)]
pub struct Metadata {
    /// The severity of the event.
    pub level: Level,
    /// The module in which the event occurred, where it is known.
    pub module: Option<String>,
    /// The source file in which the event occurred, where it is known.
    pub file: Option<String>,
    /// The line of the source file, where it is known.
    pub line: Option<u32>,
}

/// An event: its metadata and the fields recorded with it, the message among
/// them under the name `message`.
#[derive(Debug)]
pub struct Event {
    /// Level and place of the event.
    pub metadata: Metadata,
    /// The fields of the event, in the order in which they are visited.
    pub fields: Vec<Field>,
}

/// The text of the time of a record. The outer `None` says that the time
/// pattern cannot be rendered; the inner one that no time is shown.
pub open spec fn shown_time(config: Traceon, now: Timestamp) -> Option<Option<Seq<char>>> {
    if config.time is Off {
        Some(None)
    } else {
        match time_text(
            now.seconds(),
            now.nanoseconds(),
            zone_offset(config.timezone, now.offset_seconds()),
            shown_zone(config.timezone, now.zone()),
            config.time,
        ) {
            Some(t) => Some(Some(t)),
            None => None,
        }
    }
}

/// What an event has recorded once its fields were visited: on an event a
/// name recorded twice keeps the later value.
pub open spec fn event_entries(fields: Entries) -> Entries {
    observed_all(
        Seq::empty(),
        JoinFields::Overwrite,
        SpanFormat::Overwrite,
        fields,
    )
}

/// The text of the record of an event, without the line break that ends it.
pub open spec fn record_text(
    config: Traceon,
    metadata: Metadata,
    event: Entries,
    span: Option<Entries>,
    time: Option<Seq<char>>,
) -> Seq<char> {
    let lines = record_lines(config, metadata, event, span, time);
    if config.json {
        json_text(lines)
    } else {
        message_line(config, metadata.level, time, event) + pretty_block(lines)
    }
}

impl Traceon {
    /// The text of the time of a record, in the zone and the format of this
    /// configuration: `Ok(None)` where no time is shown, an error where the
    /// pattern cannot be rendered.
    pub fn time_of(&self, now: &Timestamp) -> (r: Result<Option<String>, FormatError>)
        ensures
            match r {
                Ok(time) => shown_time(*self, *now) == Some(view_or_none(time)),
                Err(e) => e is TimePattern && shown_time(*self, *now) is None,
            },
            !(self.time is CustomFormat) ==> r is Ok,
    {
        match self.time {
            TimeFormat::Off => Ok(None),
            _ => {
                let shown = now.in_zone(self.timezone);
                match time_convert(&shown, &self.time) {
                    Some(t) => Ok(Some(t)),
                    None => Err(FormatError::TimePattern),
                }
            },
        }
    }

    /// Writes the record for the given lines and, in pretty output, the
    /// message line before them.
    pub fn write_record(
        &self,
        level: Level,
        time: &Option<String>,
        event: &JsonStorage,
        lines: Vec<Line>,
    ) -> (r: Result<String, FormatError>)
        ensures
            r is Ok,
            r matches Ok(t) ==> t@ == (if self.json {
                json_text(lines_of(lines@))
            } else {
                message_line(*self, level, view_or_none(*time), event.entries()) + pretty_block(
                    lines_of(lines@),
                )
            }),
    {
        if self.json {
            json_record(&lines)
        } else {
            let mut text = match self.message_line(level, time, event) {
                Ok(text) => text,
                Err(e) => {
                    return Err(e);
                },
            };
            let fields = pretty_fields(lines);
            text.append(fields.as_str());
            Ok(text)
        }
    }

    /// Serialize a single event.
    ///
    /// The fields of the event are visited into `event_visitor`; `span` is the
    /// storage of the active span, if there is one; `now` is the time of the
    /// event. The result is the record as UTF-8, without the line break that
    /// ends it. The call fails where the time pattern cannot be rendered, and
    /// nowhere else; only a custom pattern can be one that cannot.
    pub fn serialize(
        &self,
        event: &Event,
        span: Option<&JsonStorage>,
        event_visitor: &mut JsonStorage,
        now: &Timestamp,
    ) -> (r: Result<Vec<u8>, FormatError>)
        ensures
            final(event_visitor).entries() == observed_all(
                old(event_visitor).entries(),
                old(event_visitor).join_fields,
                old(event_visitor).span_format,
                entries_of(event.fields@),
            ),
            final(event_visitor).join_fields == old(event_visitor).join_fields,
            final(event_visitor).span_format == old(event_visitor).span_format,
            r is Ok <==> shown_time(*self, *now) is Some,
            !(self.time is CustomFormat) ==> r is Ok,
            r matches Err(e) ==> e is TimePattern,
            r matches Ok(bytes) ==> bytes@ == encode_utf8(
                record_text(
                    *self,
                    event.metadata,
                    final(event_visitor).entries(),
                    entries_or_none(span),
                    shown_time(*self, *now)->0,
                ),
            ),
    {
        event_visitor.record_all(event.fields.as_slice());
        let time = match self.time_of(now) {
            Ok(time) => time,
            Err(e) => {
                return Err(e);
            },
        };
        let lines = match self.record_lines(&event.metadata, event_visitor, span, &time) {
            Ok(lines) => lines,
            Err(e) => {
                return Err(e);
            },
        };
        match self.write_record(event.metadata.level, &time, event_visitor, lines) {
            Ok(text) => Ok(text.as_str().as_bytes_vec()),
            Err(e) => Err(e),
        }
    }

    /// Formats one event: the record and the line break that ends it, ready
    /// to be written in one piece. The call fails where the time pattern
    /// cannot be rendered, and nowhere else; only a custom pattern can be one
    /// that cannot. An error means that the event is dropped and nothing is
    /// written for it.
    pub fn on_event(&self, event: &Event, span: Option<&JsonStorage>, now: &Timestamp) -> (r:
        Result<Vec<u8>, FormatError>)
        ensures
            r is Ok <==> shown_time(*self, *now) is Some,
            !(self.time is CustomFormat) ==> r is Ok,
            r matches Err(e) ==> e is TimePattern,
            r matches Ok(bytes) ==> bytes@ == encode_utf8(
                record_text(
                    *self,
                    event.metadata,
                    event_entries(entries_of(event.fields@)),
                    entries_or_none(span),
                    shown_time(*self, *now)->0,
                ),
            ).push(10u8),
    {
        let mut event_visitor = JsonStorage::new(
            JoinFields::Overwrite,
            SpanFormat::Overwrite,
        );
        match self.serialize(event, span, &mut event_visitor, now) {
            Ok(mut buffer) => {
                buffer.push(10u8);
                Ok(buffer)
            },
            Err(e) => Err(e),
        }
    }
}

/// Every JSON record is one line of JSON: an object whose keys are string
/// literals, each key once, whose values are scalars of JSON, and which
/// holds no control character, so no line break, whatever the
/// configuration, the fields and the time text are.
pub proof fn lemma_json_record_is_one_line(
    config: Traceon,
    metadata: Metadata,
    event: Entries,
    span: Option<Entries>,
    time: Option<Seq<char>>,
)
    requires
        config.json,
    ensures
        record_text(config, metadata, event, span, time) == json_text(
            record_lines(config, metadata, event, span, time),
        ),
        unique_names(record_lines(config, metadata, event, span, time)),
        scalar_texts(record_lines(config, metadata, event, span, time)),
        printable_texts(record_lines(config, metadata, event, span, time)),
        printable(record_text(config, metadata, event, span, time)),
{
    let core = core_lines(config, metadata.level, time);
    let location = location_lines(config, metadata);
    let all = all_lines(config, metadata, event, span, time);
    // Time and level.
    assert(printable_texts(core) && scalar_texts(core)) by {
        match time {
            Some(t) => {
                lemma_json_string_printable(t);
            },
            None => {},
        }
        match level_text(config.level, metadata.level) {
            Some(t) => {
                lemma_json_string_printable(t);
                lemma_decimal_printable(level_number(metadata.level) as nat);
                lemma_decimal_is_json_number(level_number(metadata.level) as int);
            },
            None => {},
        }
    }
    // Module and file.
    assert(printable_texts(location) && scalar_texts(location)) by {
        lemma_json_string_printable(text_or_empty(metadata.module));
        lemma_json_string_printable(file_text(metadata.file, metadata.line));
    }
    // The fields of the event and of the span.
    lemma_field_lines_printable(config, event, true, span_named(config, span));
    match span {
        Some(fields) => {
            lemma_field_lines_printable(config, fields, false, false);
        },
        None => {},
    }
    assert(printable_texts(all) && scalar_texts(all));
    lemma_distinct(all);
    lemma_distinct_printable(all);
    lemma_distinct_scalar(all);
    lemma_json_text_printable(distinct(all));
}

/// In a record the level is shown as the number of the level, ten for each
/// step of severity, wherever the format asks for numbers: as a JSON number
/// under the level key, and before the message in pretty output.
pub proof fn lemma_level_numbers(config: Traceon, level: Level, time: Option<Seq<char>>)
    requires
        config.level is Number,
    ensures
        level_text(config.level, level) == Some(
            match level {
                Level::Trace => seq!['1', '0'],
                Level::Debug => seq!['2', '0'],
                Level::Info => seq!['3', '0'],
                Level::Warn => seq!['4', '0'],
                Level::Error => seq!['5', '0'],
            },
        ),
        core_lines(config, level, time).last() == (
            level_key(config.case),
            level_text(config.level, level)->0,
        ),
        head_text(config, level, None) == level_text(config.level, level)->0 + " "@,
{
    reveal_with_fuel(decimal, 2);
}

/// Formatting the same event twice gives the same record but for the time:
/// in a JSON record the time is the text of the first line and every other
/// line is the same; in pretty output the time stands in the message line
/// and the fields are the same.
pub proof fn lemma_same_record_but_for_the_time(
    config: Traceon,
    metadata: Metadata,
    event: Entries,
    span: Option<Entries>,
    first: Seq<char>,
    second: Seq<char>,
)
    ensures
        ({
            let a = record_lines(config, metadata, event, span, Some(first));
            let b = record_lines(config, metadata, event, span, Some(second));
            &&& a.len() == b.len()
            &&& config.json ==> a.len() > 0 && a[0] == (time_key(config.case), json_string_text(first))
                && b[0] == (time_key(config.case), json_string_text(second))
            &&& forall|i: int| 0 < i < a.len() ==> a[i] == b[i]
            &&& !config.json ==> a == b
            &&& first == second ==> record_text(config, metadata, event, span, Some(first))
                == record_text(config, metadata, event, span, Some(second))
        }),
{
    if config.json {
        // The two lists differ in the text of the first line only.
        lemma_distinct_by_keys(
            all_lines(config, metadata, event, span, Some(first)),
            all_lines(config, metadata, event, span, Some(second)),
        );
    }
}

/// What a JSON record with keys unchanged and the message under `message`
/// shows under a key other than those of time, level, module and file: the
/// value that the event recorded under that name; where the event has none,
/// the value that the active span holds under it. The span field is always
/// the one of the active span, where it has one.
pub proof fn lemma_json_record_fields(
    config: Traceon,
    metadata: Metadata,
    event: Entries,
    span: Option<Entries>,
    time: Option<Seq<char>>,
    key: Seq<char>,
)
    requires
        config.json,
        config.case is Unchanged,
        config.message_key@ == "message"@,
        key != "time"@,
        key != "level"@,
        key != "module"@,
        key != "file"@,
    ensures
        lookup(record_lines(config, metadata, event, span, time), key) == (match (if span_named(
            config,
            span,
        ) && key == "span"@ {
            None
        } else {
            lookup(event, key)
        }) {
            Some(v) => Some(json_value_text(v)),
            None => match span {
                Some(fields) => match lookup(fields, key) {
                    Some(v) => Some(json_value_text(v)),
                    None => None,
                },
                None => None,
            },
        }),
{
    let core = core_lines(config, metadata.level, time);
    let location = location_lines(config, metadata);
    let of_event = field_lines(config, event, true, span_named(config, span));
    let of_span = match span {
        Some(fields) => field_lines(config, fields, false, false),
        None => Lines::empty(),
    };
    lemma_distinct_keeps_first(all_lines(config, metadata, event, span, time), key);
    lemma_lookup_concat(core + location + of_event, of_span, key);
    lemma_lookup_concat(core + location, of_event, key);
    lemma_lookup_concat(core, location, key);
    lemma_head_keys(config, metadata, time, key);
    lemma_field_lines_lookup(config, event, true, span_named(config, span), key);
    match span {
        Some(fields) => {
            lemma_field_lines_lookup(config, fields, false, false, key);
        },
        None => {
            assert(index_of(of_span, key) == 0);
        },
    }
}

/// An event with a message, in a span with a span field, written as a JSON
/// record with keys unchanged, the message under `message`, the time and
/// the level shown: the record has the keys `time`, `level`, `message` and
/// `span`. The time is the time text, the message is that of the event, the
/// span field is that of the span, and every other field of the span that
/// the event does not record itself is there with its value.
pub proof fn lemma_mandatory_fields(
    config: Traceon,
    metadata: Metadata,
    event: Entries,
    span: Entries,
    time: Seq<char>,
)
    requires
        config.json,
        config.case is Unchanged,
        config.message_key@ == "message"@,
        !(config.level is Off),
        lookup(event, "message"@) is Some,
        lookup(span, "span"@) is Some,
    ensures
        ({
            let record = record_lines(config, metadata, event, Some(span), Some(time));
            &&& lookup(record, "time"@) == Some(json_string_text(time))
            &&& lookup(record, "level"@) is Some
            &&& lookup(record, "message"@) == Some(json_value_text(lookup(event, "message"@)->0))
            &&& lookup(record, "span"@) == Some(json_value_text(lookup(span, "span"@)->0))
            &&& forall|name: Seq<char>|
                name != "time"@ && name != "level"@ && name != "module"@ && name != "file"@
                    && lookup(event, name) is None && (#[trigger] lookup(span, name)) is Some
                    ==> lookup(record, name) == Some(json_value_text(lookup(span, name)->0))
        }),
{
    reveal_strlit("time");
    reveal_strlit("level");
    reveal_strlit("module");
    reveal_strlit("file");
    reveal_strlit("message");
    reveal_strlit("span");
    let record = record_lines(config, metadata, event, Some(span), Some(time));
    let all = all_lines(config, metadata, event, Some(span), Some(time));
    let core = core_lines(config, metadata.level, Some(time));
    let location = location_lines(config, metadata);
    let of_event = field_lines(config, event, true, true);
    let of_span = field_lines(config, span, false, false);
    // Time and level stand first.
    assert(core[0] == ("time"@, json_string_text(time)));
    assert(core[1].0 == "level"@);
    lemma_index_of_is(core, "time"@, 0);
    lemma_index_of_is(core, "level"@, 1);
    lemma_distinct_keeps_first(all, "time"@);
    lemma_distinct_keeps_first(all, "level"@);
    lemma_lookup_concat(core, location, "time"@);
    lemma_lookup_concat(core, location, "level"@);
    lemma_lookup_concat(core + location, of_event, "time"@);
    lemma_lookup_concat(core + location, of_event, "level"@);
    lemma_lookup_concat(core + location + of_event, of_span, "time"@);
    lemma_lookup_concat(core + location + of_event, of_span, "level"@);
    // The fields: their keys are not those of time, level, module and file.
    assert("message"@.len() == 7 && "module"@.len() == 6 && "level"@.len() == 5);
    assert("time"@[0] == 't' && "file"@[0] == 'f' && "span"@[0] == 's');
    assert("time"@.len() == 4 && "file"@.len() == 4 && "span"@.len() == 4);
    lemma_json_record_fields(config, metadata, event, Some(span), Some(time), "message"@);
    lemma_json_record_fields(config, metadata, event, Some(span), Some(time), "span"@);
    assert forall|name: Seq<char>|
        name != "time"@ && name != "level"@ && name != "module"@ && name != "file"@ && lookup(
            event,
            name,
        ) is None && (#[trigger] lookup(span, name)) is Some implies lookup(record, name) == Some(
        json_value_text(lookup(span, name)->0),
    ) by {
        lemma_json_record_fields(config, metadata, event, Some(span), Some(time), name);
    }
}

} // verus!
