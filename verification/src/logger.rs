//! The group server's logger: which records it prints and how it writes
//! them.

use vstd::prelude::*;
use crate::text::{decimal, decimal_text};

verus! {

/// How severe a log record is, most severe first (as the `log` crate
/// orders its levels).
#[derive(Clone, Copy, Debug, PartialEq, Eq, Structural)]
pub enum Level {
    Error,
    Warn,
    Info,
    Debug,
    Trace,
}

/// The most verbose level let through, or none at all.
#[derive(Clone, Copy, Debug, PartialEq, Eq, Structural)]
pub enum LevelFilter {
    Off,
    Error,
    Warn,
    Info,
    Debug,
    Trace,
}

/// A level's place in the `log` crate's order: `Error` is 1, `Trace` 5; a
/// lower number is more severe.
pub open spec fn level_rank(level: Level) -> nat {
    match level {
        Level::Error => 1,
        Level::Warn => 2,
        Level::Info => 3,
        Level::Debug => 4,
        Level::Trace => 5,
    }
}

/// The name a level is printed with.
pub open spec fn level_name(level: Level) -> Seq<char> {
    match level {
        Level::Error => "ERROR"@,
        Level::Warn => "WARN"@,
        Level::Info => "INFO"@,
        Level::Debug => "DEBUG"@,
        Level::Trace => "TRACE"@,
    }
}

/// Whether records of `level` are printed: everything up to `Debug`.
pub open spec fn is_enabled(level: Level) -> bool {
    level_rank(level) <= level_rank(Level::Debug)
}

/// Whether a printed record of `level` carries the source location it was
/// logged from: errors, warnings and debug records do, the others not.
pub open spec fn shows_location(level: Level) -> bool {
    level == Level::Error || level == Level::Warn || level == Level::Debug
}

/// The line printed for a record with a source location.
pub open spec fn located_line(level: Level, file: Seq<char>, line: u32, message: Seq<char>) -> Seq<char> {
    "["@ + level_name(level) + "]("@ + file + ":"@ + decimal_text(line as nat) + "): "@ + message
}

/// The line printed for a record without a source location.
pub open spec fn plain_line(level: Level, message: Seq<char>) -> Seq<char> {
    "["@ + level_name(level) + "]: "@ + message
}

/// The group server's logger.
pub struct Logger;

fn level_str(level: Level) -> (s: &'static str)
    ensures
        s@ == level_name(level),
{
    proof {
        reveal_strlit("ERROR");
        reveal_strlit("WARN");
        reveal_strlit("INFO");
        reveal_strlit("DEBUG");
        reveal_strlit("TRACE");
    }
    match level {
        Level::Error => "ERROR",
        Level::Warn => "WARN",
        Level::Info => "INFO",
        Level::Debug => "DEBUG",
        Level::Trace => "TRACE",
    }
}

impl Logger {
    /// Whether a record of `level` is printed.
    pub fn enabled(&self, level: Level) -> (r: bool)
        ensures
            r == is_enabled(level),
    {
        match level {
            Level::Trace => false,
            _ => true,
        }
    }

    /// The line printed for a record of `level` logged from `file`, `line`
    /// with the text `message`; `None` where the record is not printed.
    /// Records that show their location must come with one.
    pub fn record_line(&self, level: Level, file: Option<&str>, line: Option<u32>, message: &str) -> (r: Option<String>)
        requires
            is_enabled(level) && shows_location(level) ==> file is Some && line is Some,
        ensures
            !is_enabled(level) ==> r is None,
            is_enabled(level) && shows_location(level) ==> (r matches Some(t)
                && t@ == located_line(level, file->0@, line->0, message@)),
            is_enabled(level) && !shows_location(level) ==> (r matches Some(t)
                && t@ == plain_line(level, message@)),
    {
        if !self.enabled(level) {
            return None;
        }
        proof {
            reveal_strlit("[");
            reveal_strlit("](");
            reveal_strlit(":");
            reveal_strlit("): ");
            reveal_strlit("]: ");
        }
        let mut t = String::from_str("[");
        t.append(level_str(level));
        match level {
            Level::Error | Level::Warn | Level::Debug => {
                let f = file.unwrap();
                let n = line.unwrap();
                t.append("](");
                t.append(f);
                t.append(":");
                t.append(decimal(n as u64).as_str());
                t.append("): ");
            },
            _ => {
                t.append("]: ");
            },
        }
        t.append(message);
        Some(t)
    }
}

/// The logger lets through every level but `Trace`.
pub proof fn law_enabled_levels(level: Level)
    ensures
        is_enabled(level) <==> level != Level::Trace,
{
}

#[verifier::external_type_specification]
#[verifier::external_body]
pub struct ExSetLoggerError(log::SetLoggerError);

/// Completes the installation of the logger: given the outcome of
/// registering it with the `log` crate, decides the most verbose level to
/// let through: `Debug` when the registration succeeded. On a failed
/// registration the error is handed back and no level is to be set.
pub fn init_logger(installed: Result<(), log::SetLoggerError>) -> (r: Result<LevelFilter, log::SetLoggerError>)
    ensures
        installed is Ok <==> r is Ok,
        r is Ok ==> r == Ok::<LevelFilter, log::SetLoggerError>(LevelFilter::Debug),
        installed matches Err(e) ==> r == Err::<LevelFilter, log::SetLoggerError>(e),
{
    match installed {
        Ok(()) => Ok(LevelFilter::Debug),
        Err(e) => Err(e),
    }
}

} // verus!
