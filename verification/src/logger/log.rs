//! A logger that formats leveled, timestamped lines and sorts them into the two
//! streams they are meant for.
//!
//! The logger writes nowhere. It keeps the lines for standard output and those
//! for standard error apart and in order, and its owner takes them out and
//! writes them.

use vstd::prelude::*;
use vstd::string::*;
use std::time::Duration;
use std::time::SystemTime;
use std::time::SystemTimeError;
use crate::text::{append_decimal, decimal};

verus! {

/// `std::time::SystemTime`, a reading of the system clock. Nothing is known of its value.
#[verifier::external_type_specification]
#[verifier::external_body]
pub struct ExSystemTime(SystemTime);

/// `std::time::SystemTimeError`, the error of `SystemTime::duration_since` when
/// the earlier time is in fact the later one.
#[verifier::external_type_specification]
#[verifier::external_body]
pub struct ExSystemTimeError(SystemTimeError);

/// `SystemTime::now` reads the system clock. It may return any time.
pub assume_specification[ SystemTime::now ]() -> (now: SystemTime)
;

/// `Duration::as_secs` gives the whole seconds of a duration. A duration is
/// opaque here, so nothing is claimed of the number.
pub assume_specification[ Duration::as_secs ](duration: &Duration) -> (seconds: u64)
;

/// `SystemTime::duration_since`, asked for the time from `SystemTime::UNIX_EPOCH`
/// to `time`. It fails when `time` lies before the epoch. Nothing is claimed of
/// either outcome.
#[verifier::external_body]
fn since_unix_epoch(time: &SystemTime) -> (r: Result<Duration, SystemTimeError>) {
    time.duration_since(SystemTime::UNIX_EPOCH)
}

/// How grave a message is.
#[derive(Clone, Copy, Debug, PartialEq, Eq, Structural)]
pub enum LogLevel {
    Debug,
    Info,
    Warning,
    Error,
}

/// The name of `level` as it stands in a line.
pub open spec fn level_name(level: LogLevel) -> Seq<char> {
    match level {
        LogLevel::Debug => "DEBUG"@,
        LogLevel::Info => "INFO"@,
        LogLevel::Warning => "WARNING"@,
        LogLevel::Error => "ERROR"@,
    }
}

/// Whether lines of `level` go to standard error. All others go to standard output.
pub open spec fn goes_to_stderr(level: LogLevel) -> bool {
    level == LogLevel::Error
}

/// The line for `message`: the timestamp in brackets, the level in brackets, the message.
pub open spec fn line(timestamp: u64, level: LogLevel, message: Seq<char>) -> Seq<char> {
    "["@ + decimal(timestamp as nat) + "] ["@ + level_name(level) + "] "@ + message
}

/// A logger as a value: the lines that wait to be written to each stream, oldest first.
pub struct LoggerState {
    pub stdout: Seq<Seq<char>>,
    pub stderr: Seq<Seq<char>>,
}

impl LoggerState {
    /// The logger after `message` was logged at `level` with the clock at `timestamp`:
    /// the line stands last in the stream for its level, the other stream is untouched.
    pub open spec fn logged(self, timestamp: u64, level: LogLevel, message: Seq<char>) -> Self {
        if goes_to_stderr(level) {
            LoggerState {
                stdout: self.stdout,
                stderr: self.stderr.push(line(timestamp, level, message)),
            }
        } else {
            LoggerState {
                stdout: self.stdout.push(line(timestamp, level, message)),
                stderr: self.stderr,
            }
        }
    }
}

/// Collects log lines for standard output and for standard error.
pub struct Logger {
    stdout: Vec<String>,
    stderr: Vec<String>,
}

impl View for Logger {
    type V = LoggerState;

    closed spec fn view(&self) -> LoggerState {
        LoggerState { stdout: self.stdout.deep_view(), stderr: self.stderr.deep_view() }
    }
}

/// The name of `level`.
pub fn level_str(level: LogLevel) -> (name: &'static str)
    ensures
        name@ == level_name(level),
{
    match level {
        LogLevel::Debug => "DEBUG",
        LogLevel::Info => "INFO",
        LogLevel::Warning => "WARNING",
        LogLevel::Error => "ERROR",
    }
}

/// Formats the line for `message`.
pub fn format_line(timestamp: u64, level: LogLevel, message: &str) -> (text: String)
    ensures
        text@ == line(timestamp, level, message@),
{
    let mut text = "[".to_owned();
    append_decimal(&mut text, timestamp);
    text.append("] [");
    text.append(level_str(level));
    text.append("] ");
    text.append(message);
    text
}

/// The seconds since the Unix epoch by the system clock, or zero if the clock
/// stands before the epoch.
pub fn timestamp() -> u64 {
    let now = SystemTime::now();
    let elapsed = match since_unix_epoch(&now) {
        Ok(duration) => Some(duration.as_secs()),
        Err(_) => None,
    };
    timestamp_of(elapsed)
}

/// The timestamp for a reading of the clock, given the whole seconds from the
/// Unix epoch to that reading, or `None` where the reading lies before the
/// epoch: those seconds, or zero.
pub fn timestamp_of(elapsed: Option<u64>) -> (stamp: u64)
    ensures
        stamp == match elapsed {
            Some(seconds) => seconds,
            None => 0,
        },
{
    match elapsed {
        Some(seconds) => seconds,
        None => 0,
    }
}

impl Logger {
    /// A logger that holds no lines.
    pub fn new() -> (logger: Self)
        ensures
            logger@ == (LoggerState { stdout: Seq::empty(), stderr: Seq::empty() }),
    {
        let logger = Logger { stdout: Vec::new(), stderr: Vec::new() };
        assert(logger@.stdout =~= Seq::empty());
        assert(logger@.stderr =~= Seq::empty());
        logger
    }

    /// Logs `message` at `level` with the clock at `timestamp`.
    pub fn log_at(&mut self, timestamp: u64, level: LogLevel, message: &str)
        ensures
            final(self)@ == old(self)@.logged(timestamp, level, message@),
    {
        let text = format_line(timestamp, level, message);
        match level {
            LogLevel::Error => {
                self.stderr.push(text);
                assert(self.stderr.deep_view() =~= old(self).stderr.deep_view().push(text@));
            },
            _ => {
                self.stdout.push(text);
                assert(self.stdout.deep_view() =~= old(self).stdout.deep_view().push(text@));
            },
        }
    }

    /// Logs `message` at `level`, stamped with the time that the system clock shows.
    pub fn log(&mut self, level: LogLevel, message: &str)
        ensures
            exists|timestamp: u64|
                final(self)@ == #[trigger] old(self)@.logged(timestamp, level, message@),
    {
        let now = timestamp();
        self.log_at(now, level, message);
    }

    /// Logs `message` at the level `Info`.
    pub fn info(&mut self, message: &str)
        ensures
            exists|timestamp: u64|
                final(self)@ == #[trigger] old(self)@.logged(
                    timestamp,
                    LogLevel::Info,
                    message@,
                ),
    {
        self.log(LogLevel::Info, message);
    }

    /// Logs `message` at the level `Warning`.
    pub fn warn(&mut self, message: &str)
        ensures
            exists|timestamp: u64|
                final(self)@ == #[trigger] old(self)@.logged(
                    timestamp,
                    LogLevel::Warning,
                    message@,
                ),
    {
        self.log(LogLevel::Warning, message);
    }

    /// Logs `message` at the level `Error`.
    pub fn error(&mut self, message: &str)
        ensures
            exists|timestamp: u64|
                final(self)@ == #[trigger] old(self)@.logged(
                    timestamp,
                    LogLevel::Error,
                    message@,
                ),
    {
        self.log(LogLevel::Error, message);
    }

    /// Logs `message` at the level `Debug`.
    pub fn debug(&mut self, message: &str)
        ensures
            exists|timestamp: u64|
                final(self)@ == #[trigger] old(self)@.logged(
                    timestamp,
                    LogLevel::Debug,
                    message@,
                ),
    {
        self.log(LogLevel::Debug, message);
    }

    /// Takes out the lines that wait for standard output, oldest first.
    pub fn take_stdout(&mut self) -> (lines: Vec<String>)
        ensures
            lines.deep_view() == old(self)@.stdout,
            final(self)@ == (LoggerState { stdout: Seq::empty(), stderr: old(self)@.stderr }),
    {
        let mut lines: Vec<String> = Vec::new();
        std::mem::swap(&mut self.stdout, &mut lines);
        assert(self.stdout.deep_view() =~= Seq::empty());
        lines
    }

    /// Takes out the lines that wait for standard error, oldest first.
    pub fn take_stderr(&mut self) -> (lines: Vec<String>)
        ensures
            lines.deep_view() == old(self)@.stderr,
            final(self)@ == (LoggerState { stdout: old(self)@.stdout, stderr: Seq::empty() }),
    {
        let mut lines: Vec<String> = Vec::new();
        std::mem::swap(&mut self.stderr, &mut lines);
        assert(self.stderr.deep_view() =~= Seq::empty());
        lines
    }
}

} // verus!
