use vstd::prelude::*;

verus! {

/// Severity of a log event, ordered by its numeric value.
///
/// `NotSet` means "inherit from the parent logger" and never acts as a
/// threshold once levels are resolved.
#[derive(Debug, Clone, Copy, PartialEq, Eq, Structural)]
pub enum LogLevel {
    NotSet,
    Debug,
    Info,
    Warning,
    Error,
    Critical,
}

/// Numeric value of a level: 0, 10, 20, 30, 40, 50.
pub open spec fn level_value(l: LogLevel) -> int {
    match l {
        LogLevel::NotSet => 0,
        LogLevel::Debug => 10,
        LogLevel::Info => 20,
        LogLevel::Warning => 30,
        LogLevel::Error => 40,
        LogLevel::Critical => 50,
    }
}

/// Upper-case display name of a level.
pub open spec fn level_name(l: LogLevel) -> Seq<char> {
    match l {
        LogLevel::NotSet => "NOTSET"@,
        LogLevel::Debug => "DEBUG"@,
        LogLevel::Info => "INFO"@,
        LogLevel::Warning => "WARNING"@,
        LogLevel::Error => "ERROR"@,
        LogLevel::Critical => "CRITICAL"@,
    }
}

/// The level whose numeric value is `n`; any other number maps to `NotSet`.
pub open spec fn level_of_number(n: int) -> LogLevel {
    if n == 10 {
        LogLevel::Debug
    } else if n == 20 {
        LogLevel::Info
    } else if n == 30 {
        LogLevel::Warning
    } else if n == 40 {
        LogLevel::Error
    } else if n == 50 {
        LogLevel::Critical
    } else {
        LogLevel::NotSet
    }
}

/// OpenTelemetry severity number of a level.
pub open spec fn severity_of(l: LogLevel) -> int {
    match l {
        LogLevel::Debug => 5,
        LogLevel::Info => 9,
        LogLevel::Warning => 13,
        LogLevel::Error => 17,
        LogLevel::Critical => 21,
        LogLevel::NotSet => 0,
    }
}

impl LogLevel {
    /// Numeric value of the level.
    pub fn value(self) -> (r: u32)
        ensures
            r == level_value(self),
    {
        match self {
            LogLevel::NotSet => 0,
            LogLevel::Debug => 10,
            LogLevel::Info => 20,
            LogLevel::Warning => 30,
            LogLevel::Error => 40,
            LogLevel::Critical => 50,
        }
    }

    /// Converts a numeric level; unknown numbers give `NotSet`.
    pub fn from_usize(level: usize) -> (r: LogLevel)
        ensures
            r == level_of_number(level as int),
    {
        match level {
            10 => LogLevel::Debug,
            20 => LogLevel::Info,
            30 => LogLevel::Warning,
            40 => LogLevel::Error,
            50 => LogLevel::Critical,
            _ => LogLevel::NotSet,
        }
    }

    /// Upper-case name, as it appears in a record's `levelname`.
    pub fn name(self) -> (r: String)
        ensures
            r@ == level_name(self),
    {
        match self {
            LogLevel::NotSet => String::from_str("NOTSET"),
            LogLevel::Debug => String::from_str("DEBUG"),
            LogLevel::Info => String::from_str("INFO"),
            LogLevel::Warning => String::from_str("WARNING"),
            LogLevel::Error => String::from_str("ERROR"),
            LogLevel::Critical => String::from_str("CRITICAL"),
        }
    }

    /// True when `self` is at least as severe as `other`.
    pub fn is_at_least(self, other: LogLevel) -> (r: bool)
        ensures
            r == (level_value(self) >= level_value(other)),
    {
        self.value() >= other.value()
    }

    /// Severity number used by the OpenTelemetry log data model.
    pub fn otlp_severity(self) -> (r: u8)
        ensures
            r == severity_of(self),
    {
        match self {
            LogLevel::Debug => 5,
            LogLevel::Info => 9,
            LogLevel::Warning => 13,
            LogLevel::Error => 17,
            LogLevel::Critical => 21,
            LogLevel::NotSet => 0,
        }
    }
}

} // verus!
