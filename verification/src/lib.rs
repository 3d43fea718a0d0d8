//! Structured event formatting for a tree of nested spans.
//!
//! The crate keeps, per span, the fields that the span and its ancestors
//! recorded, and turns each event into one record: a JSON object on one line,
//! or a coloured message line followed by aligned `key: value` lines.
//!
//! It does no input or output. The caller hands over what happened (a span
//! was made, a span recorded values, an event occurred at some time) as plain
//! values and gets storages and bytes back:
//!
//! ```text
//! let mut config = traceon::builder();
//! let _ = config.json().level(LevelFormat::Number);
//!
//! let outer = config.on_new_span(None, "outer", &[Field::new("a", FieldValue::Int(2))]);
//! let inner = config.on_new_span(Some(&outer), "inner", &[]);
//! let record = config.on_event(&event, Some(&inner), &now)?;
//! // {"time":"...","level":30,"message":"...","span":"outer::inner","a":2}
//! ```
//!
//! The modules, from the leaves up: [`text`] and [`unicode`] for strings,
//! [`casing`] for keys, [`value`] and [`json`] for field values and their
//! JSON text, [`storage`] for the fields of a span, [`span`] and [`spans`]
//! for what a span inherits, [`level`] and [`time`] for the two fields that
//! every record can show, [`record`], [`pretty`] and [`event`] for the record
//! itself, [`config`] and [`install`] for the options and their activation.
//!
//! Every function is verified against its contract. What the crate takes on
//! trust are a few functions of other crates and of the standard library,
//! each behind one private function that says what is claimed of it.
pub mod casing;
pub mod config;
pub mod error;
pub mod event;
pub mod install;
pub mod json;
pub mod level;
pub mod pretty;
pub mod record;
pub mod span;
pub mod spans;
pub mod storage;
pub mod text;
pub mod time;
pub mod unicode;
pub mod value;

pub use crate::casing::{camel, cased, pascal, snake, Case};
pub use crate::config::Traceon;
pub use crate::error::FormatError;
pub use crate::event::{Event, Metadata};
pub use crate::install::{Install, Scope, SetGlobalDefaultError};
pub use crate::level::{level_to_u16, Level, LevelFormat};
pub use crate::pretty::{clean_json_text, clean_json_value};
pub use crate::record::Line;
pub use crate::spans::Spans;
pub use crate::storage::{JoinFields, JsonStorage, SpanFormat};
pub use crate::time::{time_convert, SecondsFormat, TimeFormat, TimeZone, Timestamp};
pub use crate::value::{Field, FieldValue};

use crate::config::default_config;
use vstd::prelude::*;

verus! {

/// The pretty defaults: local time without date, file and module shown, and
/// every other option as the builder starts with it.
pub open spec fn pretty_defaults(c: Traceon) -> bool {
    &&& !c.json
    &&& c.file
    &&& c.module
    &&& c.message_key@ == "message"@
    &&& (c.span_format matches SpanFormat::Join(sep) && sep@ == "::"@)
    &&& c.case is Unchanged
    &&& c.time is PrettyTime
    &&& c.timezone is Local
    &&& c.join_fields is Overwrite
    &&& c.level is Uppercase
}

/// The JSON defaults: one JSON object per event, RFC 3339 time in UTC with
/// milliseconds and `Z`, file and module shown, and every other option as
/// the builder starts with it.
pub open spec fn json_defaults(c: Traceon) -> bool {
    &&& c.json
    &&& c.file
    &&& c.module
    &&& c.message_key@ == "message"@
    &&& (c.span_format matches SpanFormat::Join(sep) && sep@ == "::"@)
    &&& c.case is Unchanged
    &&& (c.time matches TimeFormat::RFC3339Options(seconds, use_z) && seconds is Millis && use_z)
    &&& c.timezone is UTC
    &&& c.join_fields is Overwrite
    &&& c.level is Uppercase
}

/// Returns a builder that can be configured before being turned on.
///
/// ```text
/// traceon::builder()
///     // Add field with source code filename and line number e.g. src/main.rs:10
///     .file()
///     // Add field with target and module path e.g. mybinary::mymodule::submodule
///     .module()
///     // Turn off field with joined span name where the event occured e.g. parentspan::childspan
///     .span(SpanFormat::Off)
///     // If the time is recorded in local system timezone or UTC
///     .timezone(TimeZone::UTC)
///     // Change the formatting of the time to RFC3339 with Seconds and Zulu
///     .time(TimeFormat::RFC3339Options(SecondsFormat::Secs, true))
///     // Change the casing of all the key names e.g. `camelCase` to `snake_case`
///     .case(Case::Snake)
///     // The characters used to concatenate field values that repeat in nested spans. Defaults to overwrite.
///     .join_fields(JoinFields::All("::"))
///     // Turn on json formatting instead of pretty output
///     .json()
///     // Change level value formatting to numbers for easier filtering
///     .level(LevelFormat::Number);
/// ```
pub fn builder() -> (r: Traceon)
    ensures
        default_config(r),
{
    Traceon::default()
}

/// The pretty defaults, which is local time with no date, where all the span fields are new
/// indented lines, to be activated globally on all threads.
pub fn on() -> (r: Install)
    ensures
        pretty_defaults(r.config),
        r.scope is Global,
{
    let mut config = Traceon::default();
    let _ = config.timezone(TimeZone::Local).time(TimeFormat::PrettyTime).file().module();
    config.on()
}

/// The pretty defaults, to be activated for the local thread until the guard of the installation
/// is dropped.
pub fn on_thread() -> (r: Install)
    ensures
        pretty_defaults(r.config),
        r.scope is Thread,
{
    let mut config = Traceon::default();
    let _ = config.timezone(TimeZone::Local).time(TimeFormat::PrettyTime).file().module();
    config.on_thread()
}

/// The json defaults, which is one line of flattened json per event with RFC3339 UTC time, to be
/// activated globally on all threads.
pub fn json() -> (r: Install)
    ensures
        json_defaults(r.config),
        r.scope is Global,
{
    let mut config = Traceon::default();
    let _ = config.file().module().timezone(TimeZone::UTC).time(
        TimeFormat::RFC3339Options(SecondsFormat::Millis, true),
    ).json();
    config.on()
}

/// The json defaults, to be activated for the local thread until the guard of the installation is
/// dropped.
pub fn json_thread() -> (r: Install)
    ensures
        json_defaults(r.config),
        r.scope is Thread,
{
    let mut config = Traceon::default();
    let _ = config.file().module().timezone(TimeZone::UTC).time(
        TimeFormat::RFC3339Options(SecondsFormat::Millis, true),
    ).json();
    config.on_thread()
}

} // verus!
