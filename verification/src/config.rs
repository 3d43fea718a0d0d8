//! The configuration of the formatter and the builder that fills it in.
use crate::casing::Case;
use crate::level::LevelFormat;
use crate::storage::{JoinFields, SpanFormat};
use crate::time::{SecondsFormat, TimeFormat, TimeZone};
use vstd::prelude::*;

verus! {

/// Every option of the storage and formatting layers.
/// All members can be modified through public methods.
#[derive(Clone, Copy, Debug)]
pub struct Traceon {
    /// Write each record as a JSON object instead of pretty lines.
    pub json: bool,
    /// Show the source file and line of the event.
    pub file: bool,
    /// Show the module path of the event.
    pub module: bool,
    /// How nested span names make up the span field.
    pub span_format: SpanFormat,
    /// The case of every key.
    pub case: Case,
    /// The format of the time field.
    pub time: TimeFormat,
    /// The zone in which the time is shown.
    pub timezone: TimeZone,
    /// How a field recorded twice is resolved.
    pub join_fields: JoinFields,
    /// The format of the level.
    pub level: LevelFormat,
    /// The key of the message in a JSON record.
    pub message_key: &'static str,
}

/// The configuration that the builder starts from: pretty output, RFC 3339
/// time in UTC, the level in capitals, span names joined by `::`, fields
/// overwritten, keys unchanged, neither file nor module.
pub open spec fn default_config(c: Traceon) -> bool {
    &&& !c.json
    &&& !c.file
    &&& !c.module
    &&& c.message_key@ == "message"@
    &&& (c.span_format matches SpanFormat::Join(sep) && sep@ == "::"@)
    &&& c.case is Unchanged
    &&& c.time is RFC3339
    &&& c.timezone is UTC
    &&& c.join_fields is Overwrite
    &&& c.level is Uppercase
}

/// Default values used for the builder
impl Default for Traceon {
    fn default() -> (r: Traceon)
        ensures
            default_config(r),
    {
        Traceon {
            json: false,
            file: false,
            module: false,
            message_key: "message",
            span_format: SpanFormat::Join("::"),
            case: Case::Unchanged,
            time: TimeFormat::RFC3339,
            timezone: TimeZone::UTC,
            join_fields: JoinFields::Overwrite,
            level: LevelFormat::Uppercase,
        }
    }
}

/// The configuration of the plain JSON formatter: one JSON object per event
/// with the level as a number, the time in RFC 3339 with `Z`, the file
/// shown, the module hidden, the span field holding the name of the innermost
/// span, and fields overwritten.
pub open spec fn plain_json_config(c: Traceon) -> bool {
    &&& c.json
    &&& c.file
    &&& !c.module
    &&& c.message_key@ == "message"@
    &&& c.span_format is Overwrite
    &&& c.case is Unchanged
    &&& (c.time matches TimeFormat::RFC3339Options(seconds, use_z) && seconds is AutoSi && use_z)
    &&& c.timezone is UTC
    &&& c.join_fields is Overwrite
    &&& c.level is Number
}

impl Traceon {
    /// Returns the configuration of the plain JSON formatter, to be changed
    /// option by option like the one of the builder.
    #[must_use]
    pub fn new() -> (r: Traceon)
        ensures
            plain_json_config(r),
    {
        Traceon {
            json: true,
            file: true,
            module: false,
            message_key: "message",
            span_format: SpanFormat::Overwrite,
            case: Case::Unchanged,
            time: TimeFormat::RFC3339Options(SecondsFormat::AutoSi, true),
            timezone: TimeZone::UTC,
            join_fields: JoinFields::Overwrite,
            level: LevelFormat::Number,
        }
    }

    /// Turn the file field on.
    ///
    /// pretty output:
    /// ```text
    ///     file: src/traceon.rs:68
    /// ```
    #[must_use]
    pub fn file(&mut self) -> (ret: &mut Self)
        ensures
            *ret == (Traceon { file: true, ..*old(self) }),
            *final(self) == *final(ret),
    {
        self.file = true;
        self
    }

    /// Change formatting of span field, make children overwrite the parent, or turn it off.
    ///
    /// With `SpanFormat::Join(">")`, pretty output:
    ///
    /// ```text
    /// 12:30:02 INFO span level 1
    ///     span: level_1
    ///
    /// 12:30:02 INFO span level 2
    ///     span: level_1>level_2
    /// ```
    #[must_use]
    pub fn span(&mut self, span_format: SpanFormat) -> (ret: &mut Self)
        ensures
            *ret == (Traceon { span_format, ..*old(self) }),
            *final(self) == *final(ret),
    {
        self.span_format = span_format;
        self
    }

    /// Change the key for the message field when using the json formatter.
    ///
    /// json output:
    /// ```json
    /// {
    ///     "msg": "the message key is now msg"
    /// }
    /// ```
    #[must_use]
    pub fn message_key(&mut self, message_key: &'static str) -> (ret: &mut Self)
        ensures
            *ret == (Traceon { message_key, ..*old(self) }),
            *final(self) == *final(ret),
    {
        self.message_key = message_key;
        self
    }

    /// Turn module field on.
    ///
    /// pretty output:
    /// ```text
    ///     module: my_target::my_module
    /// ```
    #[must_use]
    pub fn module(&mut self) -> (ret: &mut Self)
        ensures
            *ret == (Traceon { module: true, ..*old(self) }),
            *final(self) == *final(ret),
    {
        self.module = true;
        self
    }

    /// Choose to join (concatenate) values from the same field in nested spans.
    ///
    /// With `JoinFields::Listed("||", &["field_b"])`, pretty output:
    /// ```text
    /// 12:44:12 INFO testing field join
    ///     field_a: second
    ///     field_b: first||second
    ///     span:    span_1::span_2
    /// ```
    #[must_use]
    pub fn join_fields(&mut self, join_fields: JoinFields) -> (ret: &mut Self)
        ensures
            *ret == (Traceon { join_fields, ..*old(self) }),
            *final(self) == *final(ret),
    {
        self.join_fields = join_fields;
        self
    }

    /// Change time formatting
    #[must_use]
    pub fn time(&mut self, time_format: TimeFormat) -> (ret: &mut Self)
        ensures
            *ret == (Traceon { time: time_format, ..*old(self) }),
            *final(self) == *final(ret),
    {
        self.time = time_format;
        self
    }

    /// Change level formatting
    #[must_use]
    pub fn level(&mut self, level_format: LevelFormat) -> (ret: &mut Self)
        ensures
            *ret == (Traceon { level: level_format, ..*old(self) }),
            *final(self) == *final(ret),
    {
        self.level = level_format;
        self
    }

    /// Change timezone
    #[must_use]
    pub fn timezone(&mut self, timezone: TimeZone) -> (ret: &mut Self)
        ensures
            *ret == (Traceon { timezone, ..*old(self) }),
            *final(self) == *final(ret),
    {
        self.timezone = timezone;
        self
    }

    /// Use json formatting instead of pretty formatting
    #[must_use]
    pub fn json(&mut self) -> (ret: &mut Self)
        ensures
            *ret == (Traceon { json: true, ..*old(self) }),
            *final(self) == *final(ret),
    {
        self.json = true;
        self
    }

    /// Change casing of keys to match a specific format
    #[must_use]
    pub fn case(&mut self, case: Case) -> (ret: &mut Self)
        ensures
            *ret == (Traceon { case, ..*old(self) }),
            *final(self) == *final(ret),
    {
        self.case = case;
        self
    }
}

} // verus!
