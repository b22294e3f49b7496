use vstd::prelude::*;

verus! {

/// The log level configuration for the application.
#[derive(Debug, Clone, Copy, PartialEq, Eq, Structural)]
pub enum LogLevel {
    /// Development environment with detailed logging
    Development,
    /// Production environment with minimal logging
    Production,
    /// Testing environment with specific logging requirements
    Testing,
}

/// The filter directive that a log level stands for.
pub open spec fn level_directive(level: LogLevel) -> Seq<char> {
    match level {
        LogLevel::Development => "debug"@,
        LogLevel::Production => "info"@,
        LogLevel::Testing => "warn"@,
    }
}

impl LogLevel {
    /// Returns the filter directive of the log level.
    pub fn as_str(&self) -> (r: &'static str)
        ensures
            r@ == level_directive(*self),
    {
        match self {
            LogLevel::Development => "debug",
            LogLevel::Production => "info",
            LogLevel::Testing => "warn",
        }
    }
}

} // verus!
