//! Severity levels: their names, their numbers and their colours.
use crate::text::{ascii_lowercase, to_ascii_lowercase};
use vstd::prelude::*;

verus! {

/// The severity of an event.
#[derive(Clone, Copy, Debug, PartialEq, Eq)]
pub enum Level {
    /// Very low priority, often extremely verbose, information.
    Trace,
    /// Lower priority information.
    Debug,
    /// Useful information.
    Info,
    /// Hazardous situations.
    Warn,
    /// Very serious errors.
    Error,
}

/// Format the log level
#[derive(Clone, Copy, Debug)]
pub enum LevelFormat {
    /// Hide log levels
    Off,
    /// Log level uppercase e.g. WARN
    Uppercase,
    /// Log level lowercase e.g. warn
    Lowercase,
    /// Log level as numbers
    ///     TRACE: 10
    ///     DEBUG: 20
    ///     INFO:  30
    ///     WARN:  40
    ///     ERROR: 50
    Number,
}

/// The colour of the message line.
#[derive(Clone, Copy, Debug, PartialEq, Eq)]
pub enum Color {
    /// The colour of `TRACE`.
    Purple,
    /// The colour of `DEBUG`.
    Blue,
    /// The colour of `INFO`.
    Green,
    /// The colour of `WARN`.
    Yellow,
    /// The colour of `ERROR`.
    Red,
}

/// The number of a level: ten for each step of severity.
pub open spec fn level_number(level: Level) -> u16 {
    match level {
        Level::Trace => 10,
        Level::Debug => 20,
        Level::Info => 30,
        Level::Warn => 40,
        Level::Error => 50,
    }
}

/// The name of a level, in capitals.
pub open spec fn level_name(level: Level) -> Seq<char> {
    match level {
        Level::Trace => "TRACE"@,
        Level::Debug => "DEBUG"@,
        Level::Info => "INFO"@,
        Level::Warn => "WARN"@,
        Level::Error => "ERROR"@,
    }
}

/// The colour in which a level is shown.
pub open spec fn level_color(level: Level) -> Color {
    match level {
        Level::Trace => Color::Purple,
        Level::Debug => Color::Blue,
        Level::Info => Color::Green,
        Level::Warn => Color::Yellow,
        Level::Error => Color::Red,
    }
}

/// The ANSI code of a foreground colour.
pub open spec fn color_code(color: Color) -> Seq<char> {
    match color {
        Color::Purple => "35"@,
        Color::Blue => "34"@,
        Color::Green => "32"@,
        Color::Yellow => "33"@,
        Color::Red => "31"@,
    }
}

/// `text` between the escape sequence that selects the colour and the one
/// that resets the terminal.
pub open spec fn painted(color: Color, text: Seq<char>) -> Seq<char> {
    "\u{1b}["@ + color_code(color) + "m"@ + text + "\u{1b}[0m"@
}

/// Convert from log levels to an u16 for easy filtering
pub fn level_to_u16(level: &Level) -> (r: u16)
    ensures
        r == level_number(*level),
{
    match level {
        Level::Error => 50,
        Level::Warn => 40,
        Level::Info => 30,
        Level::Debug => 20,
        Level::Trace => 10,
    }
}

/// The colour of a level.
pub fn color_of(level: Level) -> (r: Color)
    ensures
        r == level_color(level),
{
    match level {
        Level::Trace => Color::Purple,
        Level::Debug => Color::Blue,
        Level::Info => Color::Green,
        Level::Warn => Color::Yellow,
        Level::Error => Color::Red,
    }
}

/// The name of a level as `tracing` prints it.
///
/// Wraps the `Display` impl of `tracing::Level`, which writes one of five
/// fixed words; the contract gives the word for each level.
#[verifier::external_body]
pub(crate) fn level_text(level: Level) -> (r: String)
    ensures
        r@ == level_name(level),
{
    let level = match level {
        Level::Trace => tracing::Level::TRACE,
        Level::Debug => tracing::Level::DEBUG,
        Level::Info => tracing::Level::INFO,
        Level::Warn => tracing::Level::WARN,
        Level::Error => tracing::Level::ERROR,
    };
    level.to_string()
}

/// Paints `text` in a foreground colour.
///
/// Wraps `nu_ansi_term::Style::paint` and the `Display` impl of what it
/// returns. For a style with only a foreground colour that impl writes the
/// escape sequence of the colour, the text, and the reset sequence.
#[verifier::external_body]
pub(crate) fn paint(color: Color, text: &str) -> (r: String)
    ensures
        r@ == painted(color, text@),
{
    let color = match color {
        Color::Purple => nu_ansi_term::Color::Purple,
        Color::Blue => nu_ansi_term::Color::Blue,
        Color::Green => nu_ansi_term::Color::Green,
        Color::Yellow => nu_ansi_term::Color::Yellow,
        Color::Red => nu_ansi_term::Color::Red,
    };
    nu_ansi_term::Style::new().fg(color).paint(text).to_string()
}

/// The name of a level in capitals.
pub fn level_upper(level: Level) -> (r: String)
    ensures
        r@ == level_name(level),
{
    level_text(level)
}

/// The name of a level in lower case.
pub fn level_lower(level: Level) -> (r: String)
    ensures
        r@ == ascii_lowercase(level_name(level)),
{
    let name = level_text(level);
    to_ascii_lowercase(name.as_str())
}

} // verus!
