//! The process logger's rules: which records pass the level filter, where
//! each goes, and how its line reads. Printing is left to the caller.
use vstd::prelude::*;

verus! {

/// How serious a record is, most serious first.
#[derive(Clone, Copy, Debug, PartialEq, Eq, Structural)]
pub enum Level {
    Error,
    Warn,
    Info,
    Debug,
    Trace,
}

/// The least serious level that is let through; `Off` lets nothing through.
#[derive(Clone, Copy, Debug, PartialEq, Eq, Structural)]
pub enum LevelFilter {
    Off,
    Error,
    Warn,
    Info,
    Debug,
    Trace,
}

/// Where a line is printed.
#[derive(Clone, Copy, Debug, PartialEq, Eq, Structural)]
pub enum Stream {
    Stdout,
    Stderr,
}

/// A line to print.
#[derive(Clone, Debug, PartialEq, Eq)]
pub struct LogLine {
    pub stream: Stream,
    pub text: String,
}

impl Level {
    /// The place of the level in the order of levels, from 1 for `Error`.
    pub open spec fn rank(self) -> nat {
        match self {
            Level::Error => 1,
            Level::Warn => 2,
            Level::Info => 3,
            Level::Debug => 4,
            Level::Trace => 5,
        }
    }

    /// The name of the level in capitals.
    pub open spec fn name(self) -> Seq<char> {
        match self {
            Level::Error => "ERROR"@,
            Level::Warn => "WARN"@,
            Level::Info => "INFO"@,
            Level::Debug => "DEBUG"@,
            Level::Trace => "TRACE"@,
        }
    }

    /// The place of the level in the order of levels.
    pub fn severity(&self) -> (rank: u8)
        ensures
            rank == self.rank(),
    {
        match self {
            Level::Error => 1,
            Level::Warn => 2,
            Level::Info => 3,
            Level::Debug => 4,
            Level::Trace => 5,
        }
    }

    /// The name of the level in capitals.
    pub fn as_str(&self) -> (name: &'static str)
        ensures
            name@ == self.name(),
    {
        match self {
            Level::Error => "ERROR",
            Level::Warn => "WARN",
            Level::Info => "INFO",
            Level::Debug => "DEBUG",
            Level::Trace => "TRACE",
        }
    }
}

impl LevelFilter {
    /// The rank of the least serious level that passes; 0 for `Off`.
    pub open spec fn rank(self) -> nat {
        match self {
            LevelFilter::Off => 0,
            LevelFilter::Error => 1,
            LevelFilter::Warn => 2,
            LevelFilter::Info => 3,
            LevelFilter::Debug => 4,
            LevelFilter::Trace => 5,
        }
    }

    /// The rank of the least serious level that passes.
    pub fn threshold(&self) -> (rank: u8)
        ensures
            rank == self.rank(),
    {
        match self {
            LevelFilter::Off => 0,
            LevelFilter::Error => 1,
            LevelFilter::Warn => 2,
            LevelFilter::Info => 3,
            LevelFilter::Debug => 4,
            LevelFilter::Trace => 5,
        }
    }
}

/// Where a record of `level` goes: errors to the error stream, all else to
/// the output stream.
pub open spec fn stream_of(level: Level) -> Stream {
    if level == Level::Error {
        Stream::Stderr
    } else {
        Stream::Stdout
    }
}

/// How a record reads: information as it is, an error after `ERROR: `, and
/// any other after its level in square brackets and an arrow.
pub open spec fn line_text(level: Level, message: Seq<char>) -> Seq<char> {
    match level {
        Level::Info => message,
        Level::Error => "ERROR: "@ + message,
        _ => "["@ + level.name() + "] => "@ + message,
    }
}

/// The process logger.
#[derive(Clone, Copy, Debug, PartialEq, Eq)]
pub struct Logger {
    pub level: LevelFilter,
}

impl Logger {
    /// Whether the logger lets records of `level` through.
    pub open spec fn lets_through(&self, level: Level) -> bool {
        level.rank() <= self.level.rank()
    }

    /// Whether a record of `level` passes the filter.
    pub fn enabled(&self, level: Level) -> (passes: bool)
        ensures
            passes == self.lets_through(level),
    {
        level.severity() <= self.level.threshold()
    }

    /// The line for a record, if the record passes the filter.
    pub fn log(&self, level: Level, message: &str) -> (line: Option<LogLine>)
        ensures
            match line {
                Some(line) => {
                    &&& self.lets_through(level)
                    &&& line.stream == stream_of(level)
                    &&& line.text@ == line_text(level, message@)
                },
                None => !self.lets_through(level),
            },
    {
        if !self.enabled(level) {
            return None;
        }
        match level {
            Level::Info => {
                Some(LogLine { stream: Stream::Stdout, text: String::from_str(message) })
            },
            Level::Error => {
                let mut text = String::from_str("ERROR: ");
                text.append(message);
                Some(LogLine { stream: Stream::Stderr, text })
            },
            _ => {
                let mut text = String::from_str("[");
                text.append(level.as_str());
                text.append("] => ");
                text.append(message);
                Some(LogLine { stream: Stream::Stdout, text })
            },
        }
    }
}

} // verus!
