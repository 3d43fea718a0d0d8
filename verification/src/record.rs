//! The lines of a record: which fields an event shows, under which keys and
//! in which order, each key once.
use crate::casing::{cased, cased_key, Case};
use crate::config::Traceon;
use crate::error::FormatError;
use crate::event::Metadata;
use crate::json::{
    frame_object, is_json_scalar, joined, json_literal, json_string_text, json_value,
    json_value_text, lemma_joined_printable, lemma_json_string_printable,
    lemma_json_value_is_scalar, lemma_json_value_printable, texts,
};
use crate::level::{
    level_lower, level_name, level_number, level_to_u16, level_upper, Level, LevelFormat,
};
use crate::pretty::{clean_json_value, cleaned};
use crate::span::span_key;
use crate::storage::{
    index_of, lemma_index_of, lemma_index_of_is, lemma_lookup_push, lookup, unique_names,
    JsonStorage,
};
use crate::text::{
    ascii_lowercase, decimal, lemma_printable_concat, printable, str_eq, to_ascii_lowercase,
    u64_text,
};
use crate::value::{entries_of, Entries, Field, FieldValue, Value};
use vstd::prelude::*;

verus! {

/// One field of a record as it will be written: the key in its final case
/// and the text of the value.
#[derive(Debug, PartialEq, Eq)]
pub struct Line {
    /// The key.
    pub key: String,
    /// The text of the value.
    pub text: String,
}

/// The lines of a record: keys with the texts of their values, in order.
pub type Lines = Seq<(Seq<char>, Seq<char>)>;

impl View for Line {
    type V = (Seq<char>, Seq<char>);

    open spec fn view(&self) -> (Seq<char>, Seq<char>) {
        (self.key@, self.text@)
    }
}

/// The views of the given lines.
pub open spec fn lines_of(lines: Seq<Line>) -> Lines {
    lines.map_values(|l: Line| l@)
}

/// The key of the level.
pub open spec fn level_key(case: Case) -> Seq<char> {
    if case is Pascal {
        "Level"@
    } else {
        "level"@
    }
}

/// The key of the source file.
pub open spec fn file_key(case: Case) -> Seq<char> {
    if case is Pascal {
        "File"@
    } else {
        "file"@
    }
}

/// The key of the module path.
pub open spec fn module_key(case: Case) -> Seq<char> {
    if case is Pascal {
        "Module"@
    } else {
        "module"@
    }
}

/// The key of the time.
pub open spec fn time_key(case: Case) -> Seq<char> {
    if case is Pascal {
        "Time"@
    } else {
        "time"@
    }
}

/// The text of an optional string: nothing where it is missing.
pub open spec fn text_or_empty(text: Option<String>) -> Seq<char> {
    match text {
        Some(t) => t@,
        None => Seq::empty(),
    }
}

/// The source position of an event: file, colon, line; a missing file is
/// empty and a missing line is 0.
pub open spec fn file_text(file: Option<String>, line: Option<u32>) -> Seq<char> {
    text_or_empty(file) + ":"@ + decimal(
        match line {
            Some(n) => n as nat,
            None => 0,
        },
    )
}

/// The text of a field value in a record: its JSON text, made readable in
/// pretty output.
pub open spec fn shown_value(json: bool, value: Value) -> Seq<char> {
    if json {
        json_value_text(value)
    } else {
        cleaned(json_value_text(value))
    }
}

/// The text of a string that the formatter itself supplies: a JSON string
/// literal, or the string as it is in pretty output.
pub open spec fn shown_text(json: bool, text: Seq<char>) -> Seq<char> {
    if json {
        json_string_text(text)
    } else {
        text
    }
}

/// The level as the format shows it; `None` where the level is hidden.
pub open spec fn level_text(format: LevelFormat, level: Level) -> Option<Seq<char>> {
    match format {
        LevelFormat::Off => None,
        LevelFormat::Uppercase => Some(level_name(level)),
        LevelFormat::Lowercase => Some(ascii_lowercase(level_name(level))),
        LevelFormat::Number => Some(decimal(level_number(level) as nat)),
    }
}

/// The first lines of a JSON record: the time, where there is one, and the
/// level, a number where the format asks for numbers and a string otherwise.
pub open spec fn core_lines(config: Traceon, level: Level, time: Option<Seq<char>>) -> Lines {
    (match time {
        Some(t) => seq![(time_key(config.case), json_string_text(t))],
        None => Seq::empty(),
    }) + (match level_text(config.level, level) {
        Some(t) => seq![
            (
                level_key(config.case),
                if config.level is Number {
                    t
                } else {
                    json_string_text(t)
                },
            ),
        ],
        None => Seq::empty(),
    })
}

/// The lines that say where the event occurred: module and file, each where
/// the configuration asks for it.
pub open spec fn location_lines(config: Traceon, metadata: Metadata) -> Lines {
    (if config.module {
        seq![
            (module_key(config.case), shown_text(config.json, text_or_empty(metadata.module))),
        ]
    } else {
        Seq::empty()
    }) + (if config.file {
        seq![
            (
                file_key(config.case),
                shown_text(config.json, file_text(metadata.file, metadata.line)),
            ),
        ]
    } else {
        Seq::empty()
    })
}

/// The key under which a field is shown. In a JSON record the message of the
/// event goes by the configured message key. Every key is put in the
/// configured case.
pub open spec fn shown_key(config: Traceon, name: Seq<char>, of_event: bool) -> Seq<char> {
    if of_event && config.json && name == "message"@ {
        cased_key(config.message_key@, config.case)
    } else {
        cased_key(name, config.case)
    }
}

/// The key under which the span field is shown.
pub open spec fn shown_span_key(config: Traceon) -> Seq<char> {
    cased_key(span_key(config.case), config.case)
}

/// Whether a field with the given shown key gets a line of its own. In
/// pretty output the message does not: it is the first line. A field of the
/// event that would hide the span field of the active span does not: the span
/// field is taken from the span.
pub open spec fn is_shown(config: Traceon, key: Seq<char>, of_event: bool, span_named: bool) -> bool {
    &&& config.json || ascii_lowercase(key) != "message"@
    &&& !(of_event && span_named && key == shown_span_key(config))
}

/// The lines for the given stored fields, in their order.
pub open spec fn field_lines(
    config: Traceon,
    fields: Entries,
    of_event: bool,
    span_named: bool,
) -> Lines
    decreases fields.len(),
{
    if fields.len() == 0 {
        Seq::empty()
    } else {
        let before = field_lines(config, fields.drop_last(), of_event, span_named);
        let key = shown_key(config, fields.last().0, of_event);
        if is_shown(config, key, of_event, span_named) {
            before.push((key, shown_value(config.json, fields.last().1)))
        } else {
            before
        }
    }
}

/// The lines without those whose key an earlier line has already: of two
/// sources with the same key the one of higher priority is shown.
pub open spec fn distinct(lines: Lines) -> Lines
    decreases lines.len(),
{
    if lines.len() == 0 {
        Seq::empty()
    } else {
        let before = distinct(lines.drop_last());
        if index_of(before, lines.last().0) < before.len() {
            before
        } else {
            before.push(lines.last())
        }
    }
}

/// Whether the active span, if any, holds a span field.
pub open spec fn span_named(config: Traceon, span: Option<Entries>) -> bool {
    match span {
        Some(fields) => lookup(fields, span_key(config.case)) is Some,
        None => false,
    }
}

/// Every line from every source, in the order of priority: time and level
/// (in a JSON record; pretty output has them in the message line), module,
/// file, the fields of the event, the fields of the active span.
pub open spec fn all_lines(
    config: Traceon,
    metadata: Metadata,
    event: Entries,
    span: Option<Entries>,
    time: Option<Seq<char>>,
) -> Lines {
    (if config.json {
        core_lines(config, metadata.level, time)
    } else {
        Seq::empty()
    }) + location_lines(config, metadata) + field_lines(
        config,
        event,
        true,
        span_named(config, span),
    ) + (match span {
        Some(fields) => field_lines(config, fields, false, false),
        None => Seq::empty(),
    })
}

/// The lines of a record: every line from every source, each key once.
pub open spec fn record_lines(
    config: Traceon,
    metadata: Metadata,
    event: Entries,
    span: Option<Entries>,
    time: Option<Seq<char>>,
) -> Lines {
    distinct(all_lines(config, metadata, event, span, time))
}

/// One member of a JSON object: the key as a string literal, a colon, the
/// text of the value.
pub open spec fn member(line: (Seq<char>, Seq<char>)) -> Seq<char> {
    json_string_text(line.0) + ":"@ + line.1
}

/// The compact JSON object with one member for each line.
pub open spec fn json_text(lines: Lines) -> Seq<char> {
    seq!['{'] + joined(lines.map_values(|l: (Seq<char>, Seq<char>)| member(l)), seq![','])
        + seq!['}']
}

/// The view of an optional string.
pub open spec fn view_or_none(text: Option<String>) -> Option<Seq<char>> {
    match text {
        Some(t) => Some(t@),
        None => None,
    }
}

/// The entries of an optional storage.
pub open spec fn entries_or_none(span: Option<&JsonStorage>) -> Option<Entries> {
    match span {
        Some(s) => Some(s.entries()),
        None => None,
    }
}

/// The index of the first line with the given key; the number of lines where
/// there is none.
pub fn find_line(lines: &Vec<Line>, key: &str) -> (r: usize)
    ensures
        r == index_of(lines_of(lines@), key@),
        r <= lines.len(),
{
    let mut i: usize = 0;
    assert(lines_of(lines@).skip(0) =~= lines_of(lines@));
    while i < lines.len()
        invariant
            i <= lines.len(),
            index_of(lines_of(lines@), key@) == i + index_of(lines_of(lines@).skip(i as int), key@),
        decreases lines.len() - i,
    {
        if str_eq(lines[i].key.as_str(), key) {
            return i;
        }
        assert(lines_of(lines@).skip(i as int).drop_first() =~= lines_of(lines@).skip(i + 1));
        i = i + 1;
    }
    i
}

/// The lines in reverse order: a list in which the first line is the one
/// that can be taken out first.
pub fn reversed_lines(lines: Vec<Line>) -> (r: Vec<Line>)
    ensures
        lines_of(r@) == lines_of(lines@).reverse(),
{
    let ghost all = lines_of(lines@);
    let mut lines = lines;
    let mut r: Vec<Line> = Vec::new();
    while lines.len() > 0
        invariant
            lines.len() + r.len() == all.len(),
            lines_of(lines@) == all.take(lines.len() as int),
            forall|k: int| 0 <= k < r.len() ==> (#[trigger] r@[k])@ == all[all.len() - 1 - k],
        decreases lines.len(),
    {
        let ghost prev = lines@;
        let line = lines.pop().unwrap();
        assert(line@ == lines_of(prev)[prev.len() - 1]);
        r.push(line);
    }
    r
}

/// Removes each line whose key an earlier line has already.
pub fn distinct_lines(lines: Vec<Line>) -> (r: Vec<Line>)
    ensures
        lines_of(r@) == distinct(lines_of(lines@)),
{
    let ghost all = lines_of(lines@);
    let mut rest = reversed_lines(lines);
    let mut r: Vec<Line> = Vec::new();
    assert(lines_of(rest@).len() == rest.len() && all.reverse().len() == all.len());
    while rest.len() > 0
        invariant
            rest.len() <= all.len(),
            lines_of(rest@) == all.reverse().take(rest.len() as int),
            lines_of(r@) == distinct(all.take(all.len() - rest.len())),
        decreases rest.len(),
    {
        let ghost i = all.len() - rest.len();
        let ghost prev = rest@;
        let line = rest.pop().unwrap();
        assert(line@ == lines_of(prev)[prev.len() - 1]);
        assert(all.take(i + 1).drop_last() =~= all.take(i as int));
        if find_line(&r, line.key.as_str()) >= r.len() {
            r.push(line);
        }
    }
    assert(all.take(all.len() as int) =~= all);
    r
}

impl Traceon {
    /// The key of the level in this configuration.
    pub fn level_key(&self) -> (r: &'static str)
        ensures
            r@ == level_key(self.case),
    {
        match self.case {
            Case::Pascal => "Level",
            _ => "level",
        }
    }

    /// The key of the source file in this configuration.
    pub fn file_key(&self) -> (r: &'static str)
        ensures
            r@ == file_key(self.case),
    {
        match self.case {
            Case::Pascal => "File",
            _ => "file",
        }
    }

    /// The key of the module path in this configuration.
    pub fn module_key(&self) -> (r: &'static str)
        ensures
            r@ == module_key(self.case),
    {
        match self.case {
            Case::Pascal => "Module",
            _ => "module",
        }
    }

    /// The key of the time in this configuration.
    pub fn time_key(&self) -> (r: &'static str)
        ensures
            r@ == time_key(self.case),
    {
        match self.case {
            Case::Pascal => "Time",
            _ => "time",
        }
    }

    /// The level as this configuration shows it.
    pub fn level_text(&self, level: Level) -> (r: Option<String>)
        ensures
            match r {
                Some(t) => level_text(self.level, level) == Some(t@),
                None => level_text(self.level, level) is None,
            },
    {
        match self.level {
            LevelFormat::Off => None,
            LevelFormat::Uppercase => Some(level_upper(level)),
            LevelFormat::Lowercase => Some(level_lower(level)),
            LevelFormat::Number => Some(u64_text(level_to_u16(&level) as u64)),
        }
    }

    /// The text of a string that the formatter supplies.
    fn plain_text(&self, text: &str) -> (r: Result<String, FormatError>)
        ensures
            r is Ok,
            r matches Ok(t) ==> t@ == shown_text(self.json, text@),
    {
        if self.json {
            json_literal(text)
        } else {
            Ok(text.to_owned())
        }
    }

    /// The text of a field value.
    fn value_text(&self, value: &FieldValue) -> (r: Result<String, FormatError>)
        ensures
            r is Ok,
            r matches Ok(t) ==> t@ == shown_value(self.json, value@),
    {
        if self.json {
            json_value(value)
        } else {
            clean_json_value(value)
        }
    }

    /// Adds the core fields of a JSON record to `out`: the time, where there
    /// is one, and the level.
    pub fn serialize_core_fields(
        &self,
        out: &mut Vec<Line>,
        level: Level,
        time: &Option<String>,
    ) -> (r: Result<(), FormatError>)
        ensures
            r is Ok,
            lines_of(final(out)@) == lines_of(old(out)@) + core_lines(
                *self,
                level,
                view_or_none(*time),
            ),
    {
        match time {
            Some(t) => {
                let text = match json_literal(t.as_str()) {
                    Ok(text) => text,
                    Err(e) => {
                        return Err(e);
                    },
                };
                out.push(Line { key: self.time_key().to_owned(), text });
            },
            None => {},
        }
        match self.level_text(level) {
            Some(t) => {
                let text = match self.level {
                    LevelFormat::Number => t,
                    _ => match json_literal(t.as_str()) {
                        Ok(text) => text,
                        Err(e) => {
                            return Err(e);
                        },
                    },
                };
                out.push(Line { key: self.level_key().to_owned(), text });
            },
            None => {},
        }
        Ok(())
    }

    /// Adds the module and the file of the event to `out`, each where it is
    /// asked for.
    fn push_location_lines(&self, out: &mut Vec<Line>, metadata: &Metadata) -> (r: Result<
        (),
        FormatError,
    >)
        ensures
            r is Ok,
            lines_of(final(out)@) == lines_of(old(out)@) + location_lines(*self, *metadata),
    {
        if self.module {
            let module = match &metadata.module {
                Some(m) => m.as_str(),
                None => "",
            };
            proof {
                reveal_strlit("");
                assert(""@ =~= Seq::<char>::empty());
            }
            let text = match self.plain_text(module) {
                Ok(text) => text,
                Err(e) => {
                    return Err(e);
                },
            };
            out.push(Line { key: self.module_key().to_owned(), text });
        }
        if self.file {
            let mut value = match &metadata.file {
                Some(f) => f.clone(),
                None => String::new(),
            };
            value.append(":");
            let line = u64_text(
                match metadata.line {
                    Some(n) => n as u64,
                    None => 0,
                },
            );
            value.append(line.as_str());
            let text = match self.plain_text(value.as_str()) {
                Ok(text) => text,
                Err(e) => {
                    return Err(e);
                },
            };
            out.push(Line { key: self.file_key().to_owned(), text });
        }
        Ok(())
    }

    /// The key under which a field is shown.
    pub fn shown_key(&self, name: &str, of_event: bool) -> (r: String)
        ensures
            r@ == shown_key(*self, name@, of_event),
    {
        if of_event && self.json && str_eq(name, "message") {
            cased(self.message_key, self.case)
        } else {
            cased(name, self.case)
        }
    }

    /// Adds the lines of the given stored fields to `out`.
    fn push_field_lines(
        &self,
        out: &mut Vec<Line>,
        fields: &Vec<Field>,
        of_event: bool,
        span_named: bool,
    ) -> (r: Result<(), FormatError>)
        ensures
            r is Ok,
            lines_of(final(out)@) == lines_of(old(out)@) + field_lines(
                *self,
                entries_of(fields@),
                of_event,
                span_named,
            ),
    {
        let ghost start = lines_of(out@);
        let ghost all = entries_of(fields@);
        let span_key = cased(self.span_key(), self.case);
        let mut i: usize = 0;
        while i < fields.len()
            invariant
                i <= fields.len(),
                all == entries_of(fields@),
                span_key@ == shown_span_key(*self),
                lines_of(out@) == start + field_lines(
                    *self,
                    all.take(i as int),
                    of_event,
                    span_named,
                ),
            decreases fields.len() - i,
        {
            let field = &fields[i];
            let ghost next = all.take(i + 1);
            assert(next.drop_last() =~= all.take(i as int));
            assert(next.last() == field@);
            let key = self.shown_key(field.name.as_str(), of_event);
            let lower = to_ascii_lowercase(key.as_str());
            let shown = (self.json || !str_eq(lower.as_str(), "message")) && !(of_event
                && span_named && str_eq(key.as_str(), span_key.as_str()));
            if shown {
                let text = match self.value_text(&field.value) {
                    Ok(text) => text,
                    Err(e) => {
                        return Err(e);
                    },
                };
                let ghost before = out@;
                out.push(Line { key, text });
                assert(lines_of(out@) =~= lines_of(before).push((key@, text@)));
            }
            i = i + 1;
        }
        assert(all.take(fields.len() as int) =~= all);
        Ok(())
    }

    /// The lines of the record of an event, from the fields that the event
    /// recorded, the storage of the active span and the text of the time;
    /// `time` is `None` where the time is not shown.
    pub fn record_lines(
        &self,
        metadata: &Metadata,
        event: &JsonStorage,
        span: Option<&JsonStorage>,
        time: &Option<String>,
    ) -> (r: Result<Vec<Line>, FormatError>)
        ensures
            r is Ok,
            r matches Ok(lines) ==> lines_of(lines@) == record_lines(
                *self,
                *metadata,
                event.entries(),
                entries_or_none(span),
                view_or_none(*time),
            ),
    {
        let mut out: Vec<Line> = Vec::new();
        if self.json {
            match self.serialize_core_fields(&mut out, metadata.level, time) {
                Ok(()) => {},
                Err(e) => {
                    return Err(e);
                },
            }
        }
        match self.push_location_lines(&mut out, metadata) {
            Ok(()) => {},
            Err(e) => {
                return Err(e);
            },
        }
        let span_named = match span {
            Some(s) => s.find(self.span_key()) < s.values.len(),
            None => false,
        };
        match self.push_field_lines(&mut out, &event.values, true, span_named) {
            Ok(()) => {},
            Err(e) => {
                return Err(e);
            },
        }
        match span {
            Some(s) => {
                match self.push_field_lines(&mut out, &s.values, false, false) {
                    Ok(()) => {},
                    Err(e) => {
                        return Err(e);
                    },
                }
            },
            None => {},
        }
        Ok(distinct_lines(out))
    }
}

/// Writes the lines as one compact JSON object.
pub fn json_record(lines: &Vec<Line>) -> (r: Result<String, FormatError>)
    ensures
        r is Ok,
        r matches Ok(t) ==> t@ == json_text(lines_of(lines@)),
{
    let mut members: Vec<String> = Vec::new();
    let mut i: usize = 0;
    while i < lines.len()
        invariant
            i <= lines.len(),
            members.len() == i,
            forall|k: int| 0 <= k < i ==> members@[k]@ == member(#[trigger] lines@[k]@),
        decreases lines.len() - i,
    {
        let mut text = match json_literal(lines[i].key.as_str()) {
            Ok(text) => text,
            Err(e) => {
                return Err(e);
            },
        };
        text.append(":");
        text.append(lines[i].text.as_str());
        members.push(text);
        i = i + 1;
    }
    assert(texts(members@) =~= lines_of(lines@).map_values(
        |l: (Seq<char>, Seq<char>)| member(l),
    ));
    Ok(frame_object(&members))
}

/// The text of every line is printable.
pub open spec fn printable_texts(lines: Lines) -> bool {
    forall|i: int| 0 <= i < lines.len() ==> printable(#[trigger] lines[i].1)
}

/// The text of every line is a scalar of JSON.
pub open spec fn scalar_texts(lines: Lines) -> bool {
    forall|i: int| 0 <= i < lines.len() ==> is_json_scalar(#[trigger] lines[i].1)
}

/// What is left of the lines has each key once, and every line that is left
/// was there before.
pub proof fn lemma_distinct(lines: Lines)
    ensures
        unique_names(distinct(lines)),
        forall|i: int|
            0 <= i < distinct(lines).len() ==> lines.contains(#[trigger] distinct(lines)[i]),
    decreases lines.len(),
{
    if lines.len() > 0 {
        let before = distinct(lines.drop_last());
        lemma_distinct(lines.drop_last());
        lemma_index_of(before, lines.last().0);
        assert forall|i: int| 0 <= i < distinct(lines).len() implies lines.contains(
            #[trigger] distinct(lines)[i],
        ) by {
            if i < before.len() {
                let x = before[i];
                assert(lines.drop_last().contains(x));
                let j = choose|j: int| 0 <= j < lines.drop_last().len() && lines.drop_last()[j] == x;
                assert(lines[j] == x);
            } else {
                assert(lines[lines.len() - 1] == distinct(lines)[i]);
            }
        }
    }
}

/// Lines taken from printable lines are printable.
pub proof fn lemma_distinct_printable(lines: Lines)
    requires
        printable_texts(lines),
    ensures
        printable_texts(distinct(lines)),
{
    lemma_distinct(lines);
    assert forall|i: int| 0 <= i < distinct(lines).len() implies printable(
        #[trigger] distinct(lines)[i].1,
    ) by {
        let x = distinct(lines)[i];
        assert(lines.contains(x));
        let j = choose|j: int| 0 <= j < lines.len() && lines[j] == x;
        assert(printable(lines[j].1));
    }
}

/// Lines taken from lines of scalars are lines of scalars.
pub proof fn lemma_distinct_scalar(lines: Lines)
    requires
        scalar_texts(lines),
    ensures
        scalar_texts(distinct(lines)),
{
    lemma_distinct(lines);
    assert forall|i: int| 0 <= i < distinct(lines).len() implies is_json_scalar(
        #[trigger] distinct(lines)[i].1,
    ) by {
        let x = distinct(lines)[i];
        assert(lines.contains(x));
        let j = choose|j: int| 0 <= j < lines.len() && lines[j] == x;
        assert(is_json_scalar(lines[j].1));
    }
}

/// In a JSON record the text of every field is a printable scalar of JSON.
pub proof fn lemma_field_lines_printable(
    config: Traceon,
    fields: Entries,
    of_event: bool,
    span_named: bool,
)
    requires
        config.json,
    ensures
        printable_texts(field_lines(config, fields, of_event, span_named)),
        scalar_texts(field_lines(config, fields, of_event, span_named)),
    decreases fields.len(),
{
    if fields.len() > 0 {
        lemma_field_lines_printable(config, fields.drop_last(), of_event, span_named);
        lemma_json_value_printable(fields.last().1);
        lemma_json_value_is_scalar(fields.last().1);
    }
}

/// Printable lines make a printable JSON object.
pub proof fn lemma_json_text_printable(lines: Lines)
    requires
        printable_texts(lines),
    ensures
        printable(json_text(lines)),
{
    let members = lines.map_values(|l: (Seq<char>, Seq<char>)| member(l));
    reveal_strlit(":");
    assert forall|i: int| 0 <= i < members.len() implies printable(#[trigger] members[i]) by {
        lemma_json_string_printable(lines[i].0);
        lemma_printable_concat(json_string_text(lines[i].0), ":"@);
        assert(printable(lines[i].1));
        lemma_printable_concat(json_string_text(lines[i].0) + ":"@, lines[i].1);
    }
    lemma_joined_printable(members, seq![',']);
    lemma_printable_concat(seq!['{'], joined(members, seq![',']));
    lemma_printable_concat(seq!['{'] + joined(members, seq![',']), seq!['}']);
}

/// Which lines are kept depends on the keys alone: two lists of lines with
/// the same keys keep the lines at the same places.
pub proof fn lemma_distinct_by_keys(a: Lines, b: Lines)
    requires
        a.len() == b.len(),
        a.len() > 0,
        a[0].0 == b[0].0,
        forall|i: int| 0 < i < a.len() ==> a[i] == b[i],
    ensures
        distinct(a).len() == distinct(b).len(),
        distinct(a).len() > 0,
        distinct(a)[0] == a[0],
        distinct(b)[0] == b[0],
        forall|i: int| 0 < i < distinct(a).len() ==> distinct(a)[i] == distinct(b)[i],
    decreases a.len(),
{
    if a.len() == 1 {
        let none = Lines::empty();
        assert(a.drop_last() =~= none);
        assert(b.drop_last() =~= none);
        assert(distinct(none) =~= none);
        assert(distinct(a) =~= seq![a[0]]);
        assert(distinct(b) =~= seq![b[0]]);
    } else {
        let a0 = a.drop_last();
        let b0 = b.drop_last();
        lemma_distinct_by_keys(a0, b0);
        let da = distinct(a0);
        let db = distinct(b0);
        let key = a.last().0;
        assert(a.last() == b.last());
        lemma_index_of(da, key);
        lemma_index_of(db, key);
        let ia = index_of(da, key);
        assert forall|j: int| 0 <= j < ia implies (#[trigger] db[j]).0 != key by {
            assert(da[j].0 != key);
            assert(j == 0 || da[j] == db[j]);
        }
        if ia < da.len() {
            assert(db[ia].0 == key) by {
                assert(ia == 0 || da[ia] == db[ia]);
            }
        }
        lemma_index_of_is(db, key, ia);
        assert(distinct(a)[0] == da[0]);
        assert(distinct(b)[0] == db[0]);
        assert(a0[0] == a[0] && b0[0] == b[0]);
    }
}

/// Of the lines with one key the first is kept: a lookup in the lines of a
/// record gives what a lookup in all lines gives.
pub proof fn lemma_distinct_keeps_first(lines: Lines, key: Seq<char>)
    ensures
        lookup(distinct(lines), key) == lookup(lines, key),
    decreases lines.len(),
{
    if lines.len() > 0 {
        let init = lines.drop_last();
        let kept = distinct(init);
        lemma_distinct_keeps_first(init, key);
        lemma_distinct_keeps_first(init, lines.last().0);
        lemma_lookup_push(init, lines.last(), key);
        lemma_lookup_push(kept, lines.last(), key);
        lemma_index_of(kept, lines.last().0);
        assert(init.push(lines.last()) =~= lines);
    }
}

/// The first lines of a record and the lines of the place have no keys but
/// those of time, level, module and file.
pub proof fn lemma_head_keys(
    config: Traceon,
    metadata: Metadata,
    time: Option<Seq<char>>,
    key: Seq<char>,
)
    requires
        key != time_key(config.case),
        key != level_key(config.case),
        key != module_key(config.case),
        key != file_key(config.case),
    ensures
        lookup(core_lines(config, metadata.level, time), key) is None,
        lookup(location_lines(config, metadata), key) is None,
{
    let core = core_lines(config, metadata.level, time);
    let location = location_lines(config, metadata);
    assert forall|j: int| 0 <= j < core.len() implies (#[trigger] core[j]).0 != key by {}
    assert forall|j: int| 0 <= j < location.len() implies (#[trigger] location[j]).0 != key by {}
    lemma_index_of_is(core, key, core.len() as int);
    lemma_index_of_is(location, key, location.len() as int);
}

/// In a JSON record with keys unchanged and the message under `message`,
/// every stored field has its line under its own name, with the JSON text
/// of its value; only a field of the event called like the span field has
/// none where the active span has a span field.
pub proof fn lemma_field_lines_lookup(
    config: Traceon,
    fields: Entries,
    of_event: bool,
    span_named: bool,
    key: Seq<char>,
)
    requires
        config.json,
        config.case is Unchanged,
        config.message_key@ == "message"@,
    ensures
        lookup(field_lines(config, fields, of_event, span_named), key) == (if of_event
            && span_named && key == "span"@ {
            None
        } else {
            match lookup(fields, key) {
                Some(v) => Some(json_value_text(v)),
                None => None,
            }
        }),
    decreases fields.len(),
{
    if fields.len() == 0 {
        assert(index_of(fields, key) == 0);
    } else {
        let init = fields.drop_last();
        lemma_field_lines_lookup(config, init, of_event, span_named, key);
        lemma_lookup_push(init, fields.last(), key);
        assert(init.push(fields.last()) =~= fields);
        let name = fields.last().0;
        assert(shown_key(config, name, of_event) == name);
        lemma_lookup_push(
            field_lines(config, init, of_event, span_named),
            (name, json_value_text(fields.last().1)),
            key,
        );
    }
}

} // verus!
