//! What is logged about deployments, requests and errors: which log file a
//! record goes to, its text and its level.  Writing the records out, with the
//! time they were made, happens at the edge of the program.

use vstd::prelude::*;
use crate::text::owned;

verus! {

/// How important a record is.
#[derive(Debug, Clone, Copy, PartialEq, Eq, Structural)]
pub enum LogLevel {
    Debug,
    Info,
    Error,
}

/// A record to log: the file under the log directory, the text, the level.
#[derive(Debug)]
pub struct LogEntry {
    pub file: String,
    pub message: String,
    pub level: LogLevel,
}

/// The record of a deployment event.
pub fn log_deployment(deployment_id: &str, event: &str) -> (r: LogEntry)
    ensures
        r.file@ == "deployments.log"@,
        r.message@ == "FnService "@ + deployment_id@ + " - "@ + event@,
        r.level == LogLevel::Info,
{
    let mut message = owned("FnService ");
    message.append(deployment_id);
    message.append(" - ");
    message.append(event);
    LogEntry { file: owned("deployments.log"), message: message, level: LogLevel::Info }
}

/// The record of a request served by `fn_name`.
pub fn log_request(fn_name: &str, input: &str, output: &str) -> (r: LogEntry)
    ensures
        r.file@ == "requests.log"@,
        r.message@ == fn_name@ + ": "@ + input@ + " -> "@ + output@,
        r.level == LogLevel::Debug,
{
    let mut message = owned(fn_name);
    message.append(": ");
    message.append(input);
    message.append(" -> ");
    message.append(output);
    LogEntry { file: owned("requests.log"), message: message, level: LogLevel::Debug }
}

/// The record of an error.
pub fn log_error(error: &str) -> (r: LogEntry)
    ensures
        r.file@ == "errors.log"@,
        r.message@ == error@,
        r.level == LogLevel::Error,
{
    LogEntry { file: owned("errors.log"), message: owned(error), level: LogLevel::Error }
}

/// A line of a log file: the time in brackets, the text, a line feed.
pub fn log_line(timestamp: &str, message: &str) -> (r: String)
    ensures
        r@ == "["@ + timestamp@ + "] "@ + message@ + "\n"@,
{
    let mut r = owned("[");
    r.append(timestamp);
    r.append("] ");
    r.append(message);
    r.append("\n");
    r
}

/// The directory of the log files, under the home directory `home`.
pub open spec fn log_dir_of(home: Option<String>) -> Seq<char> {
    crate::paths::path_join(crate::paths::path_join(crate::paths::home_or_here(home), ".wdsm"@), "logs"@)
}

/// The directory of the log files.
pub fn log_dir(home: &Option<String>) -> (r: String)
    ensures
        r@ == log_dir_of(*home),
{
    let h = crate::paths::home_dir(home);
    let d = crate::paths::join_path(h.as_str(), ".wdsm");
    crate::paths::join_path(d.as_str(), "logs")
}

} // verus!
