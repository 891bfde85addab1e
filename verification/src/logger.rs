//! The module-side logger: severity filtering and message shaping.
//!
//! A module logs through the host with a fixed prefix; messages above the
//! logger's severity ceiling are dropped. Writing the shaped line to the
//! console, with its colors and timestamp, is the embedding program's
//! presentation work and stays outside this crate.

use vstd::prelude::*;

verus! {

/// A message's severity. `Error` is the most severe.
#[derive(Debug, Clone, Copy, PartialEq, Eq, Structural)]
pub enum Level {
    Error,
    Warn,
    Info,
    Debug,
    Trace,
}

/// The number each level crosses the native logging boundary as; less
/// severe levels get larger numbers.
pub open spec fn level_code(l: Level) -> int {
    match l {
        Level::Error => 1,
        Level::Warn => 2,
        Level::Info => 3,
        Level::Debug => 4,
        Level::Trace => 5,
    }
}

impl Level {
    /// The number this level crosses the native logging boundary as.
    pub fn as_u8(&self) -> (v: u8)
        ensures
            v == level_code(*self),
    {
        match self {
            Level::Error => 1,
            Level::Warn => 2,
            Level::Info => 3,
            Level::Debug => 4,
            Level::Trace => 5,
        }
    }
}

/// The logger as its contracts see it.
#[verifier::ext_equal]
pub ghost struct LoggerModel {
    pub prefix: Seq<char>,
    pub max_level: Level,
}

/// A prefixed, severity-filtered logger.
pub struct Logger {
    prefix: String,
    max_level: Level,
}

impl View for Logger {
    type V = LoggerModel;

    closed spec fn view(&self) -> LoggerModel {
        LoggerModel { prefix: self.prefix@, max_level: self.max_level }
    }
}

impl Logger {
    /// A logger with this prefix that keeps everything up to `Debug`.
    pub fn new(prefix: &str) -> (r: Logger)
        ensures
            r@.prefix == prefix@,
            r@.max_level == Level::Debug,
    {
        Logger { prefix: prefix.to_owned(), max_level: Level::Debug }
    }

    /// Raise or lower the severity ceiling.
    pub fn set_max_level(&mut self, level: Level)
        ensures
            final(self)@ == (LoggerModel { max_level: level, ..old(self)@ }),
    {
        self.max_level = level;
        proof {
            assert(self@ =~= (LoggerModel { max_level: level, ..old(self)@ }));
        }
    }

    /// Whether a message of this level passes the ceiling.
    pub fn enabled(&self, level: Level) -> (r: bool)
        ensures
            r == (level_code(level) <= level_code(self@.max_level)),
    {
        level.as_u8() <= self.max_level.as_u8()
    }

    /// The line a message is logged as: the prefix in brackets, then the
    /// message — or nothing, when the level does not pass the ceiling.
    pub fn log(&self, level: Level, msg: &str) -> (r: Option<String>)
        ensures
            match r {
                Option::Some(line) => level_code(level) <= level_code(self@.max_level) && line@
                    == "["@ + self@.prefix + "] "@ + msg@,
                Option::None => level_code(level) > level_code(self@.max_level),
            },
    {
        if !self.enabled(level) {
            return None;
        }
        let line = String::from_str("[").concat(self.prefix.as_str()).concat("] ").concat(msg);
        Some(line)
    }
}

} // verus!
