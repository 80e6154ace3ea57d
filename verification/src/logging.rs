//! Log levels, the filter the command line sets, and how a log line reads.
use vstd::prelude::*;

use crate::debug_fmt::push_str;

verus! {

/// Importance of a log message, most important first.
#[derive(Debug, Clone, Copy, PartialEq, Eq, Structural)]
pub enum Level {
    Error,
    Warn,
    Info,
    Debug,
    Trace,
}

/// Which messages are logged: none, or those at least as important as a level.
#[derive(Debug, Clone, Copy, PartialEq, Eq, Structural)]
pub enum LevelFilter {
    Off,
    Error,
    Warn,
    Info,
    Debug,
    Trace,
}

/// The rank of a level: 1 for errors up to 5 for traces.
pub open spec fn level_rank(l: Level) -> nat {
    match l {
        Level::Error => 1,
        Level::Warn => 2,
        Level::Info => 3,
        Level::Debug => 4,
        Level::Trace => 5,
    }
}

/// The rank of a filter: 0 when off up to 5 for traces.
pub open spec fn filter_rank(f: LevelFilter) -> nat {
    match f {
        LevelFilter::Off => 0,
        LevelFilter::Error => 1,
        LevelFilter::Warn => 2,
        LevelFilter::Info => 3,
        LevelFilter::Debug => 4,
        LevelFilter::Trace => 5,
    }
}

fn level_number(l: Level) -> (n: u8)
    ensures
        n == level_rank(l),
{
    match l {
        Level::Error => 1,
        Level::Warn => 2,
        Level::Info => 3,
        Level::Debug => 4,
        Level::Trace => 5,
    }
}

fn filter_number(f: LevelFilter) -> (n: u8)
    ensures
        n == filter_rank(f),
{
    match f {
        LevelFilter::Off => 0,
        LevelFilter::Error => 1,
        LevelFilter::Warn => 2,
        LevelFilter::Info => 3,
        LevelFilter::Debug => 4,
        LevelFilter::Trace => 5,
    }
}

/// Whether a message at `level` passes `filter`.
pub fn level_enabled(level: Level, filter: LevelFilter) -> (r: bool)
    ensures
        r == (level_rank(level) <= filter_rank(filter)),
{
    level_number(level) <= filter_number(filter)
}

/// The filter for a verbosity: 0 is off, 1 errors, up to 5 for traces; any
/// higher verbosity is traces too.
pub open spec fn filter_of(v: nat) -> LevelFilter {
    if v == 0 {
        LevelFilter::Off
    } else if v == 1 {
        LevelFilter::Error
    } else if v == 2 {
        LevelFilter::Warn
    } else if v == 3 {
        LevelFilter::Info
    } else if v == 4 {
        LevelFilter::Debug
    } else {
        LevelFilter::Trace
    }
}

/// The filter that `verbose` uses of `-v` and `quiet` uses of `-q` select:
/// errors by default, one level more per `-v`, one less per `-q`.
pub fn verbosity_filter(verbose: usize, quiet: usize) -> (f: LevelFilter)
    requires
        verbose < usize::MAX,
    ensures
        f == filter_of(if 1 + verbose >= quiet {
            (1 + verbose - quiet) as nat
        } else {
            0
        }),
{
    let v = (1 + verbose).saturating_sub(quiet);
    if v == 0 {
        LevelFilter::Off
    } else if v == 1 {
        LevelFilter::Error
    } else if v == 2 {
        LevelFilter::Warn
    } else if v == 3 {
        LevelFilter::Info
    } else if v == 4 {
        LevelFilter::Debug
    } else {
        LevelFilter::Trace
    }
}

/// The marker a log line starts with for each level.
pub open spec fn level_marker(l: Level) -> Seq<char> {
    match l {
        Level::Error => "[\x1b[31;1mERROR\x1b[0m]"@,
        Level::Warn => "[\x1b[33;1mWARN \x1b[0m]"@,
        Level::Info => "[\x1b[37;1mINFO \x1b[0m]"@,
        Level::Debug => "[DEBUG]"@,
        Level::Trace => "[\x1b[2mTRACE\x1b[0m]"@,
    }
}

/// The marker a log line starts with.
pub fn level_prefix(l: Level) -> (s: &'static str)
    ensures
        s@ == level_marker(l),
{
    match l {
        Level::Error => "[\x1b[31;1mERROR\x1b[0m]",
        Level::Warn => "[\x1b[33;1mWARN \x1b[0m]",
        Level::Info => "[\x1b[37;1mINFO \x1b[0m]",
        Level::Debug => "[DEBUG]",
        Level::Trace => "[\x1b[2mTRACE\x1b[0m]",
    }
}

/// The line logged for a message: marker, target in brackets, message.
pub fn log_line(level: Level, target: &str, message: &str) -> (s: String)
    ensures
        s@ == level_marker(level) + " ["@ + target@ + "]: "@ + message@,
{
    let mut s = String::new();
    push_str(&mut s, level_prefix(level));
    push_str(&mut s, " [");
    push_str(&mut s, target);
    push_str(&mut s, "]: ");
    push_str(&mut s, message);
    s
}

} // verus!
