//! What the loop has to say: log records, computed here and emitted by
//! whoever drives the loop, and the flattening of an error with its causes
//! into such records.

use vstd::prelude::*;
use vstd::string::StringExecFns;

verus! {

/// The severity of a log record.
#[derive(Clone, Copy, Debug, PartialEq, Eq, Structural)]
pub enum Level {
    /// Life-cycle markers.
    Debug,
    /// Failures of handlers, of the exit hook and of event delivery.
    Error,
}

/// One line for the log.
#[derive(Debug, PartialEq, Eq)]
pub struct LogRecord {
    pub level: Level,
    pub message: String,
}

/// A log record as a mathematical value.
pub struct Line {
    pub level: Level,
    pub message: Seq<char>,
}

impl View for LogRecord {
    type V = Line;

    open spec fn view(&self) -> Line {
        Line { level: self.level, message: self.message@ }
    }
}

/// The lines that a sequence of records stands for.
pub open spec fn lines(log: Seq<LogRecord>) -> Seq<Line> {
    log.map_values(|record: LogRecord| record@)
}

/// A life-cycle marker.
pub open spec fn debug_line(message: Seq<char>) -> Line {
    Line { level: Level::Debug, message }
}

/// A failure message.
pub open spec fn error_line(message: Seq<char>) -> Line {
    Line { level: Level::Error, message }
}

/// The line that reports one cause of a failure.
pub open spec fn cause_line(cause: Seq<char>) -> Line {
    error_line("  Caused by: "@ + cause)
}

/// One line per cause, in the order of the chain.
pub open spec fn cause_lines(chain: Seq<Seq<char>>) -> Seq<Line> {
    chain.map_values(|cause: Seq<char>| cause_line(cause))
}

/// The report of a failure: what failed, then every cause in its chain, all
/// at error severity.
pub open spec fn failure_lines(what: Seq<char>, chain: Seq<Seq<char>>) -> Seq<Line> {
    seq![error_line(what)] + cause_lines(chain)
}

/// The texts of a chain of causes.
pub open spec fn texts(causes: Seq<String>) -> Seq<Seq<char>> {
    causes.map_values(|cause: String| cause@)
}

impl LogRecord {
    /// A record at debug severity.
    pub fn debug(message: &str) -> (record: LogRecord)
        ensures
            record@ == debug_line(message@),
    {
        LogRecord { level: Level::Debug, message: String::from_str(message) }
    }

    /// A record at error severity.
    pub fn error(message: &str) -> (record: LogRecord)
        ensures
            record@ == error_line(message@),
    {
        LogRecord { level: Level::Error, message: String::from_str(message) }
    }
}

/// Reports every cause of a chain, most specific first: one error record per
/// cause, in order, each marked as a cause.
pub fn log_causes(causes: &Vec<String>) -> (log: Vec<LogRecord>)
    ensures
        lines(log@) == cause_lines(texts(causes@)),
{
    let mut log: Vec<LogRecord> = Vec::new();
    let mut i: usize = 0;
    while i < causes.len()
        invariant
            i <= causes.len(),
            log@.len() == i,
            forall|k: int| 0 <= k < i ==> (#[trigger] log@[k])@ == cause_line(causes@[k]@),
        decreases causes.len() - i,
    {
        let mut message = String::from_str("  Caused by: ");
        message.append(causes[i].as_str());
        log.push(LogRecord { level: Level::Error, message });
        i += 1;
    }
    assert(lines(log@) =~= cause_lines(texts(causes@)));
    log
}

/// Reports a failure: a record saying what failed, followed by the chain of
/// causes as `log_causes` reports it.
pub fn report_failure(what: &str, causes: &Vec<String>) -> (log: Vec<LogRecord>)
    ensures
        lines(log@) == failure_lines(what@, texts(causes@)),
{
    let mut log: Vec<LogRecord> = Vec::new();
    log.push(LogRecord::error(what));
    let mut rest = log_causes(causes);
    let ghost head = log@;
    let ghost tail = rest@;
    log.append(&mut rest);
    assert(log@ == head + tail);
    assert(lines(log@) =~= failure_lines(what@, texts(causes@)));
    log
}

} // verus!
