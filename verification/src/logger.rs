//! What is logged, and how.
use crate::text::{begins_with, has_prefix};
use vstd::prelude::*;
use vstd::string::StringExecFns;

verus! {

/// How grave a message is, from the gravest on.
#[derive(Clone, Copy, Debug, PartialEq, Eq, Structural)]
pub enum Level {
    Error,
    Warn,
    Info,
    Debug,
    Trace,
}

/// Down to which level messages are logged.
#[derive(Clone, Copy, Debug, PartialEq, Eq, Structural)]
pub enum Filter {
    Off,
    Error,
    Warn,
    Info,
    Debug,
    Trace,
}

/// The rank of a level: the gravest has the lowest.
pub open spec fn level_rank(level: Level) -> int {
    match level {
        Level::Error => 1,
        Level::Warn => 2,
        Level::Info => 3,
        Level::Debug => 4,
        Level::Trace => 5,
    }
}

/// The highest rank that a filter lets through.
pub open spec fn filter_rank(filter: Filter) -> int {
    match filter {
        Filter::Off => 0,
        Filter::Error => 1,
        Filter::Warn => 2,
        Filter::Info => 3,
        Filter::Debug => 4,
        Filter::Trace => 5,
    }
}

/// Whether a filter lets a level through.
pub fn enabled(level: Level, filter: Filter) -> (res: bool)
    ensures
        res == (level_rank(level) <= filter_rank(filter)),
{
    let rank: u8 = match level {
        Level::Error => 1,
        Level::Warn => 2,
        Level::Info => 3,
        Level::Debug => 4,
        Level::Trace => 5,
    };
    let highest: u8 = match filter {
        Filter::Off => 0,
        Filter::Error => 1,
        Filter::Warn => 2,
        Filter::Info => 3,
        Filter::Debug => 4,
        Filter::Trace => 5,
    };
    rank <= highest
}

/// The text is the word, each letter large or small.
pub open spec fn spells(text: Seq<char>, large: Seq<char>, small: Seq<char>) -> bool {
    &&& text.len() == large.len()
    &&& forall|i: int| 0 <= i < text.len() ==> #[trigger] text[i] == large[i] || text[i] == small[i]
}

/// The filter that a text names.
pub open spec fn filter_named(text: Seq<char>) -> Option<Filter> {
    if spells(text, "OFF"@, "off"@) {
        Some(Filter::Off)
    } else if spells(text, "ERROR"@, "error"@) {
        Some(Filter::Error)
    } else if spells(text, "WARN"@, "warn"@) {
        Some(Filter::Warn)
    } else if spells(text, "INFO"@, "info"@) {
        Some(Filter::Info)
    } else if spells(text, "DEBUG"@, "debug"@) {
        Some(Filter::Debug)
    } else if spells(text, "TRACE"@, "trace"@) {
        Some(Filter::Trace)
    } else {
        None
    }
}

/// The filter that a text names, by `log::LevelFilter::from_str`: it compares the text with
/// the six names OFF, ERROR, WARN, INFO, DEBUG and TRACE without regard to the case of
/// ASCII letters, and fails on any other text.
#[verifier::external_body]
fn parse_filter(text: &str) -> (res: Option<Filter>)
    ensures
        res == filter_named(text@),
{
    match text.parse::<log::LevelFilter>() {
        Ok(log::LevelFilter::Off) => Some(Filter::Off),
        Ok(log::LevelFilter::Error) => Some(Filter::Error),
        Ok(log::LevelFilter::Warn) => Some(Filter::Warn),
        Ok(log::LevelFilter::Info) => Some(Filter::Info),
        Ok(log::LevelFilter::Debug) => Some(Filter::Debug),
        Ok(log::LevelFilter::Trace) => Some(Filter::Trace),
        Err(_) => None,
    }
}

/// The filter that is set from outside: the one that is named, or that for information
/// where none is.
pub fn filter_of(setting: Option<&str>) -> (res: Filter)
    ensures
        res == (match setting {
            Some(text) => match filter_named(text@) {
                Some(filter) => filter,
                None => Filter::Info,
            },
            None => Filter::Info,
        }),
{
    match setting {
        Some(text) => match parse_filter(text) {
            Some(filter) => filter,
            None => Filter::Info,
        },
        None => Filter::Info,
    }
}

/// The messages of a part of the program that says too much: the toolkit.
pub open spec fn is_noisy(target: Seq<char>) -> bool {
    begins_with(target, "gtk4"@) || begins_with(target, "glib"@) || begins_with(target, "gio"@)
}

/// The name of a level, in five columns.
pub open spec fn level_column(level: Level) -> Seq<char> {
    match level {
        Level::Error => "ERROR"@,
        Level::Warn => "WARN "@,
        Level::Info => "INFO "@,
        Level::Debug => "DEBUG"@,
        Level::Trace => "TRACE"@,
    }
}

/// The line for a message.
pub open spec fn line_view(level: Level, target: Seq<char>, message: Seq<char>) -> Seq<char> {
    "["@ + level_column(level) + " "@ + target + "] "@ + message + "\n"@
}

/// The line that is logged for a message; none if the filter holds it back, or if it comes
/// from the toolkit.
pub fn line_for(filter: Filter, level: Level, target: &str, message: &str) -> (res: Option<String>)
    ensures
        res.is_some() <==> level_rank(level) <= filter_rank(filter) && !is_noisy(target@),
        res.is_some() ==> res.unwrap()@ == line_view(level, target@, message@),
{
    if !enabled(level, filter) {
        return None;
    }
    if has_prefix(target, "gtk4") || has_prefix(target, "glib") || has_prefix(target, "gio") {
        return None;
    }
    let column: &str = match level {
        Level::Error => "ERROR",
        Level::Warn => "WARN ",
        Level::Info => "INFO ",
        Level::Debug => "DEBUG",
        Level::Trace => "TRACE",
    };
    let mut out: String = "[".to_string();
    out.append(column);
    out.append(" ");
    out.append(target);
    out.append("] ");
    out.append(message);
    out.append("\n");
    Some(out)
}

/// A filter that lets a level through lets every graver level through, and nothing passes
/// when logging is off.
pub proof fn filters_let_graver_levels_through(filter: Filter, level: Level, graver: Level)
    requires
        level_rank(level) <= filter_rank(filter),
        level_rank(graver) <= level_rank(level),
    ensures
        level_rank(graver) <= filter_rank(filter),
        filter != Filter::Off,
{
}

} // verus!
