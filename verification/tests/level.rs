use traceon::level::{color_of, level_lower, level_upper, Color};
use traceon::{level_to_u16, Level};

#[test]
fn level_numbers_go_up_in_tens() {
    assert_eq!(level_to_u16(&Level::Trace), 10);
    assert_eq!(level_to_u16(&Level::Debug), 20);
    assert_eq!(level_to_u16(&Level::Info), 30);
    assert_eq!(level_to_u16(&Level::Warn), 40);
    assert_eq!(level_to_u16(&Level::Error), 50);
}

#[test]
fn level_names_are_those_of_tracing() {
    assert_eq!(level_upper(Level::Trace), "TRACE");
    assert_eq!(level_upper(Level::Debug), "DEBUG");
    assert_eq!(level_upper(Level::Info), "INFO");
    assert_eq!(level_upper(Level::Warn), "WARN");
    assert_eq!(level_upper(Level::Error), "ERROR");
    assert_eq!(level_lower(Level::Trace), "trace");
    assert_eq!(level_lower(Level::Debug), "debug");
    assert_eq!(level_lower(Level::Info), "info");
    assert_eq!(level_lower(Level::Warn), "warn");
    assert_eq!(level_lower(Level::Error), "error");
}

#[test]
fn each_level_has_its_colour() {
    assert_eq!(color_of(Level::Trace), Color::Purple);
    assert_eq!(color_of(Level::Debug), Color::Blue);
    assert_eq!(color_of(Level::Info), Color::Green);
    assert_eq!(color_of(Level::Warn), Color::Yellow);
    assert_eq!(color_of(Level::Error), Color::Red);
}
