//! Where the log goes. Writing it is done by the tracing subscriber outside
//! this crate; this module names the file and the ways opening it can fail.

use vstd::prelude::*;

use crate::discovery::{join_path, joined_path, DATA_DIR, LOG_FILE};

verus! {

/// Why the log could not be started.
#[derive(Debug, PartialEq, Eq)]
pub enum LogError {
    CreateDir { path: String, message: String },
    OpenLog { path: String, message: String },
    AlreadyInitialised,
}

/// The one line a user reads for a logging error.
pub open spec fn log_message(e: LogError) -> Seq<char> {
    match e {
        LogError::CreateDir { path, .. } => "could not create "@ + path@,
        LogError::OpenLog { path, .. } => "could not open the log file "@ + path@,
        LogError::AlreadyInitialised => "tracing has already been initialised"@,
    }
}

impl LogError {
    /// The one line a user reads for this error.
    pub fn message(&self) -> (m: String)
        ensures
            m@ == log_message(*self),
    {
        let mut m = String::new();
        match self {
            LogError::CreateDir { path, .. } => {
                m.append("could not create ");
                m.append(path.as_str());
            },
            LogError::OpenLog { path, .. } => {
                m.append("could not open the log file ");
                m.append(path.as_str());
            },
            LogError::AlreadyInitialised => {
                m.append("tracing has already been initialised");
            },
        }
        m
    }
}

/// Where the log for `project_dir` lives: `<project_dir>/.pressa/pressa.log`.
pub fn log_path(project_dir: &str) -> (r: String)
    ensures
        r@ == joined_path(joined_path(project_dir@, DATA_DIR@), LOG_FILE@),
{
    let dir = join_path(project_dir, DATA_DIR);
    join_path(dir.as_str(), LOG_FILE)
}

} // verus!
