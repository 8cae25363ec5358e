//! The application-wide error type.

use vstd::prelude::*;
use vstd::string::StringExecFns;

verus! {

/// Every failure the engine can surface to a caller.
#[derive(Debug, Clone)]
pub enum AppError {
    /// A fatal I/O failure, with a description of what went wrong.
    Io(String),
    /// A configuration failure (for example, no configuration directory).
    Config(String),
    /// An unknown category name was supplied.
    InvalidCategory(String),
    /// The user cancelled an interactive selection; not a real failure.
    Cancelled,
    /// The external editor could not be launched or exited unsuccessfully.
    Editor(String),
    /// The configuration file could not be parsed.
    ConfigParse(String),
    /// An exclude pattern was syntactically invalid.
    Glob(String),
}

impl AppError {
    pub fn config(msg: String) -> (r: AppError)
        ensures
            r == AppError::Config(msg),
    {
        AppError::Config(msg)
    }

    /// The message shown to the user for this error.
    pub open spec fn message_spec(self) -> Seq<char> {
        match self {
            AppError::Io(m) => "I/O error: "@ + m@,
            AppError::Config(m) => "Configuration error: "@ + m@,
            AppError::InvalidCategory(m) => "Unknown category '"@ + m@ + "'"@,
            AppError::Cancelled => "Operation cancelled by user"@,
            AppError::Editor(m) => "Failed to launch editor: "@ + m@,
            AppError::ConfigParse(m) => "Failed to parse configuration: "@ + m@,
            AppError::Glob(m) => "Invalid exclude pattern: "@ + m@,
        }
    }

    pub fn message(&self) -> (r: String)
        ensures
            r@ == self.message_spec(),
    {
        match self {
            AppError::Io(m) => {
                let mut s = "I/O error: ".to_owned();
                s.append(m.as_str());
                s
            },
            AppError::Config(m) => {
                let mut s = "Configuration error: ".to_owned();
                s.append(m.as_str());
                s
            },
            AppError::InvalidCategory(m) => {
                let mut s = "Unknown category '".to_owned();
                s.append(m.as_str());
                s.append("'");
                s
            },
            AppError::Cancelled => "Operation cancelled by user".to_owned(),
            AppError::Editor(m) => {
                let mut s = "Failed to launch editor: ".to_owned();
                s.append(m.as_str());
                s
            },
            AppError::ConfigParse(m) => {
                let mut s = "Failed to parse configuration: ".to_owned();
                s.append(m.as_str());
                s
            },
            AppError::Glob(m) => {
                let mut s = "Invalid exclude pattern: ".to_owned();
                s.append(m.as_str());
                s
            },
        }
    }
}

} // verus!
