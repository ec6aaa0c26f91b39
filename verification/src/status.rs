//! The per-directory upload log: which line records which outcome, and
//! where it is appended.

use crate::clock::{clock_rendering, local_now_text, TIMESTAMP_PATTERN};
use crate::paths::{base_name, dir_name, file_name, join, joined, parent};
use crate::text::appended;
use vstd::prelude::*;

verus! {

/// File name of the upload log inside each source directory.
pub const LOG_FILE_NAME: &'static str = "upload.log";

/// Reason recorded for a file whose header matches no known table.
pub const NO_MATCH_REASON: &'static str = "No matching table headers found.";

/// Message recording that the file called `name` was transferred.
pub open spec fn success_text(name: Seq<char>) -> Seq<char> {
    "Upload succeeded! File: "@ + name
}

/// Message recording that the file called `name` was not transferred, and
/// why.
pub open spec fn failure_text(name: Seq<char>, reason: Seq<char>) -> Seq<char> {
    "Upload failed! File: "@ + name + " Reason: "@ + reason
}

/// The line appended for `message` at local time `time`.
pub open spec fn line_text(time: Seq<char>, message: Seq<char>) -> Seq<char> {
    time + " - "@ + message + "\n"@
}

/// One outcome to record, and the directory whose log receives it.
#[derive(Debug, PartialEq, Eq)]
pub struct LogEntry {
    pub directory: String,
    pub message: String,
}

/// A `LogEntry` as plain sequences.
pub struct LogEntryModel {
    pub directory: Seq<char>,
    pub message: Seq<char>,
}

impl View for LogEntry {
    type V = LogEntryModel;

    open spec fn view(&self) -> LogEntryModel {
        LogEntryModel { directory: self.directory@, message: self.message@ }
    }
}

/// The entry recording the transfer of the file at `path`.
pub open spec fn success_entry(path: Seq<char>) -> LogEntryModel {
    LogEntryModel { directory: dir_name(path), message: success_text(base_name(path)) }
}

/// The entry recording that the file at `path` was not transferred.
pub open spec fn failure_entry(path: Seq<char>, reason: Seq<char>) -> LogEntryModel {
    LogEntryModel { directory: dir_name(path), message: failure_text(base_name(path), reason) }
}

/// A rendered log line together with the file it belongs to.
#[derive(Debug, PartialEq, Eq)]
pub struct LogLine {
    /// The log file to append to.
    pub path: String,
    /// The local time the line starts with.
    pub time: String,
    /// The complete line, terminator included.
    pub line: String,
}

impl LogEntry {
    /// Records that the file at `path` was transferred.
    pub fn succeeded(path: &str) -> (r: LogEntry)
        ensures
            r@ == success_entry(path@),
    {
        let name = file_name(path);
        LogEntry {
            directory: parent(path),
            message: appended("Upload succeeded! File: ", name.as_str()),
        }
    }

    /// Records that the file at `path` was not transferred because of
    /// `reason`.
    pub fn failed(path: &str, reason: &str) -> (r: LogEntry)
        ensures
            r@ == failure_entry(path@, reason@),
    {
        let name = file_name(path);
        let mut message = appended("Upload failed! File: ", name.as_str());
        message.append(" Reason: ");
        message.append(reason);
        LogEntry { directory: parent(path), message }
    }

    /// The log file this entry belongs to.
    pub fn log_path(&self) -> (r: String)
        ensures
            r@ == join(self@.directory, LOG_FILE_NAME@),
    {
        joined(self.directory.as_str(), LOG_FILE_NAME)
    }

    /// The line to append for this entry when written at local time `time`.
    pub fn line_at(&self, time: &str) -> (r: String)
        ensures
            r@ == line_text(time@, self@.message),
    {
        let mut line = appended(time, " - ");
        line.append(self.message.as_str());
        line.append("\n");
        line
    }

    /// Renders this entry with the current local time: the line to append
    /// and the log file that receives it. The time is the clock's reading,
    /// rendered with the timestamp pattern.
    pub fn stamp(&self) -> (r: Option<LogLine>)
        ensures
            r matches Some(l) && {
                &&& l.path@ == join(self@.directory, LOG_FILE_NAME@)
                &&& l.line@ == line_text(l.time@, self@.message)
                &&& clock_rendering(TIMESTAMP_PATTERN@, l.time@)
            },
    {
        match local_now_text(TIMESTAMP_PATTERN) {
            Some(time) => {
                let line = self.line_at(time.as_str());
                Some(LogLine { path: self.log_path(), time, line })
            },
            None => None,
        }
    }
}

} // verus!
