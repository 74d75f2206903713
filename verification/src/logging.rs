//! The log: when its file is rotated and what a line of it looks like.

use vstd::prelude::*;
use vstd::string::*;

use crate::install::AppPath;
use crate::text;

verus! {

/// The size, in bytes, at which the log is rotated.
pub const MAX_LOG_SIZE: u64 = 1_048_576;

/// What happens to the log file when the program starts.
#[derive(Clone, Copy, Debug, Eq, PartialEq, Structural)]
pub enum LogStart {
    /// New lines go behind the old ones.
    Append,
    /// The old file takes the place of the previous one, and a new file is begun.
    Rotate,
}

/// What happens to a log file of the given length.
pub open spec fn start_of(length: Option<u64>) -> LogStart {
    if length matches Some(length) && length >= MAX_LOG_SIZE {
        LogStart::Rotate
    } else {
        LogStart::Append
    }
}

/// The log is rotated exactly when there is one and it has reached one mebibyte.
pub proof fn law_when_the_log_is_rotated(length: u64)
    ensures
        start_of(Some(length)) == LogStart::Rotate <==> length >= 1024 * 1024,
        start_of(None) == LogStart::Append,
{
}

/// Decides what happens to a log file of the given length, which is missing where there is none.
pub fn init(length: Option<u64>) -> (start: LogStart)
    ensures
        start == start_of(length),
{
    match length {
        Some(length) => if length >= MAX_LOG_SIZE {
            LogStart::Rotate
        } else {
            LogStart::Append
        },
        None => LogStart::Append,
    }
}

/// The directory of the log files, inside the directory of the program.
pub fn log_dir<B>(app_dir: AppPath<B>) -> (path: AppPath<B>)
    ensures
        path.base == app_dir.base,
        path.below() == app_dir.below().push("logs"@),
{
    app_dir.join("logs")
}

/// The log file.
pub fn current_log<B>(app_dir: AppPath<B>) -> (path: AppPath<B>)
    ensures
        path.base == app_dir.base,
        path.below() == app_dir.below().push("logs"@).push("capslockrs.log"@),
{
    log_dir(app_dir).join("capslockrs.log")
}

/// The log file that was rotated.
pub fn previous_log<B>(app_dir: AppPath<B>) -> (path: AppPath<B>)
    ensures
        path.base == app_dir.base,
        path.below() == app_dir.below().push("logs"@).push("capslockrs.log.1"@),
{
    log_dir(app_dir).join("capslockrs.log.1")
}

/// A line of the log.
pub open spec fn line_of(timestamp: Option<u64>, message: Seq<char>) -> Seq<char> {
    "["@ + text::decimal(
        match timestamp {
            Some(seconds) => seconds as nat,
            None => 0,
        },
    ) + "] "@ + message + "\n"@
}

/// A line of the log consists of the time in brackets, a space, the message and the end of the
/// line, so both the time and the message can be read from it.
pub proof fn law_log_lines_can_be_read(timestamp: Option<u64>, message: Seq<char>)
    ensures
        ({
            let line = line_of(timestamp, message);
            let seconds: nat = match timestamp {
                Some(seconds) => seconds as nat,
                None => 0,
            };
            let width = text::decimal(seconds).len() as int;
            &&& line.len() == width + message.len() + 4
            &&& line[0] == '['
            &&& text::all_digits(line.subrange(1, width + 1))
            &&& text::digits_value(line.subrange(1, width + 1)) == seconds
            &&& line[width + 1] == ']'
            &&& line[width + 2] == ' '
            &&& line.subrange(width + 3, line.len() - 1) == message
            &&& line.last() == '\n'
        }),
{
    reveal_strlit("[");
    reveal_strlit("] ");
    reveal_strlit("\n");
    let line = line_of(timestamp, message);
    let seconds: nat = match timestamp {
        Some(seconds) => seconds as nat,
        None => 0,
    };
    let number = text::decimal(seconds);
    let width = number.len() as int;
    text::law_decimal_digits(seconds);
    assert(line.subrange(1, width + 1) =~= number);
    assert(line.subrange(width + 3, line.len() - 1) =~= message);
}

/// A line of the log, with the seconds since 1970 in front; where the clock shows an earlier
/// time, `timestamp` is missing and zero is written.
pub fn log(timestamp: Option<u64>, message: &str) -> (line: String)
    ensures
        line@ == line_of(timestamp, message@),
{
    let seconds: u64 = match timestamp {
        Some(seconds) => seconds,
        None => 0,
    };
    let number = text::decimal_text(seconds);
    "[".to_owned().concat(number.as_str()).concat("] ").concat(message).concat("\n")
}

} // verus!
