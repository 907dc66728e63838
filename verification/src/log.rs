//! What is reported, and how a report is written.
use crate::clock::since_epoch;
use crate::numerals::{padded, push_padded};
use vstd::prelude::*;

verus! {

/// A report, before it is written.
#[derive(Debug)]
pub struct LogEntry {
    /// How grave it is, or what it is about.
    pub level: &'static str,
    /// What it says.
    pub msg: String,
}

/// A `LogEntry` with its parts as sequences of characters.
pub struct LogView {
    pub level: Seq<char>,
    pub msg: Seq<char>,
}

impl View for LogEntry {
    type V = LogView;

    open spec fn view(&self) -> LogView {
        LogView { level: self.level@, msg: self.msg@ }
    }
}

/// The seconds that have passed since midnight, or 0 on a clock set to before the epoch.
pub open spec fn second_of_day(elapsed: Option<u128>) -> nat {
    match elapsed {
        Some(millis) => (millis as nat / 1000) % 86_400,
        None => 0,
    }
}

/// A second of the day as hours, minutes and seconds, two digits each.
pub open spec fn time_text(second: nat) -> Seq<char> {
    padded(second / 3600, 10, 2) + ":"@ + padded((second % 3600) / 60, 10, 2) + ":"@ + padded(
        second % 60,
        10,
        2,
    )
}

/// A report as it is written.
pub open spec fn log_text(elapsed: Option<u128>, level: Seq<char>, msg: Seq<char>) -> Seq<char> {
    "["@ + time_text(second_of_day(elapsed)) + "] ["@ + level + "] "@ + msg
}

/// A report as it is written, given the milliseconds since the epoch.
pub fn log_line(elapsed: Option<u128>, level: &str, msg: &str) -> (line: String)
    ensures
        line@ == log_text(elapsed, level@, msg@),
{
    let second: u32 = match elapsed {
        Some(millis) => ((millis / 1000) % 86_400) as u32,
        None => 0,
    };
    let mut line = "[".to_owned();
    push_padded(&mut line, second / 3600, 10, 2);
    line.append(":");
    push_padded(&mut line, (second % 3600) / 60, 10, 2);
    line.append(":");
    push_padded(&mut line, second % 60, 10, 2);
    assert(line@ =~= "["@ + time_text(second_of_day(elapsed)));
    line.append("] [");
    line.append(level);
    line.append("] ");
    line.append(msg);
    line
}

/// A report as it is written now. Which time it bears depends on the machine's clock alone.
pub fn log(level: &str, msg: &str) -> (line: String)
    ensures
        exists|elapsed: Option<u128>| line@ == #[trigger] log_text(elapsed, level@, msg@),
{
    let elapsed = since_epoch();
    log_line(elapsed, level, msg)
}

/// A warning about a failure.
pub open spec fn warning_text(context: Seq<char>, err: Seq<char>) -> LogView {
    LogView { level: "WARN"@, msg: context + ": "@ + err }
}

/// A warning about a failure.
fn warning(context: &str, err: &str) -> (entry: LogEntry)
    ensures
        entry@ == warning_text(context@, err@),
{
    let mut msg = context.to_owned();
    msg.append(": ");
    msg.append(err);
    LogEntry { level: "WARN", msg }
}

/// What was read from a clipboard, or a warning that nothing was.
pub fn read_or_log(outcome: Result<Vec<u8>, String>, context: &str) -> (result: (
    Option<Vec<u8>>,
    Option<LogEntry>,
))
    ensures
        match outcome {
            Ok(data) => result.0 == Some(data) && result.1 is None,
            Err(err) => result.0 is None && result.1 is Some && result.1->0@ == warning_text(
                context@,
                err@,
            ),
        },
{
    match outcome {
        Ok(data) => (Some(data), None),
        Err(err) => (None, Some(warning(context, err.as_str()))),
    }
}

/// Whether a clipboard was written, and a warning if it was not.
pub fn write_or_log(outcome: Result<(), String>, context: &str) -> (result: (
    bool,
    Option<LogEntry>,
))
    ensures
        match outcome {
            Ok(()) => result.0 && result.1 is None,
            Err(err) => !result.0 && result.1 is Some && result.1->0@ == warning_text(
                context@,
                err@,
            ),
        },
{
    match outcome {
        Ok(()) => (true, None),
        Err(err) => (false, Some(warning(context, err.as_str()))),
    }
}

/// The hours, minutes and seconds of a report are those of a clock, and say which second it is.
pub proof fn law_time_is_that_of_a_clock(elapsed: Option<u128>)
    ensures
        ({
            let second = second_of_day(elapsed);
            let (h, m, s) = (second / 3600, (second % 3600) / 60, second % 60);
            h < 24 && m < 60 && s < 60 && second == 3600 * h + 60 * m + s
        }),
{
}

/// A report bears the time of day at which it is made, whatever the day, as two digits each for
/// hours, minutes and seconds, before its level and what it says.
pub proof fn law_report_is_framed(
    day: nat,
    h: nat,
    m: nat,
    s: nat,
    rest: nat,
    level: Seq<char>,
    msg: Seq<char>,
)
    requires
        h < 24,
        m < 60,
        s < 60,
        rest < 1000,
        1000 * (86_400 * day + 3600 * h + 60 * m + s) + rest <= u128::MAX,
    ensures
        log_text(
            Some((1000 * (86_400 * day + 3600 * h + 60 * m + s) + rest) as u128),
            level,
            msg,
        ) == "["@ + padded(h, 10, 2) + ":"@ + padded(m, 10, 2) + ":"@ + padded(s, 10, 2)
            + "] ["@ + level + "] "@ + msg,
        log_text(None, level, msg) == log_text(Some(0), level, msg),
{
    let millis = (1000 * (86_400 * day + 3600 * h + 60 * m + s) + rest) as u128;
    let second = 3600 * h + 60 * m + s;
    assert(second_of_day(Some(millis)) == second);
    assert(second / 3600 == h && (second % 3600) / 60 == m && second % 60 == s);
    assert(log_text(Some(millis), level, msg) =~= "["@ + padded(h, 10, 2) + ":"@ + padded(m, 10, 2)
        + ":"@ + padded(s, 10, 2) + "] ["@ + level + "] "@ + msg);
}

/// A warning holds what was attempted and what went wrong, in this order.
pub proof fn law_warning_names_attempt_and_error(context: Seq<char>, err: Seq<char>)
    ensures
        warning_text(context, err).level == "WARN"@,
        context.is_prefix_of(warning_text(context, err).msg),
        warning_text(context, err).msg.skip(context.len() as int) == ": "@ + err,
{
    assert((context + ": "@ + err).skip(context.len() as int) =~= ": "@ + err);
    assert((context + ": "@ + err).subrange(0, context.len() as int) =~= context);
}

/// The view of a report shows its level and what it says.
pub proof fn law_view_shows_report(entry: LogEntry)
    ensures
        entry@.level == entry.level@,
        entry@.msg == entry.msg@,
{
}

} // verus!
