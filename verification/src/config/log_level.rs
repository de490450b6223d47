//! Log levels and their order, from the most verbose to none.
use vstd::prelude::*;

use core::cmp::Ordering;
use vstd::std_specs::cmp::PartialOrdSpecImpl;

verus! {

/// A logging level.
#[derive(Debug, Clone, Copy, PartialEq, Eq, Structural, Ord)]
pub enum LogLevel {
    /// The most verbose level.
    Trace,
    /// Detailed diagnostic information.
    Debug,
    /// General information about the execution.
    Info,
    /// Potentially harmful situations.
    Warn,
    /// Errors after which the application goes on.
    Error,
    /// No logging at all.
    Off,
}

/// The place of a level in the order Trace < Debug < Info < Warn < Error < Off.
pub open spec fn log_rank(l: LogLevel) -> nat {
    match l {
        LogLevel::Trace => 0nat,
        LogLevel::Debug => 1nat,
        LogLevel::Info => 2nat,
        LogLevel::Warn => 3nat,
        LogLevel::Error => 4nat,
        LogLevel::Off => 5nat,
    }
}

/// The lowercase name of a level.
pub open spec fn log_level_name(l: LogLevel) -> Seq<char> {
    match l {
        LogLevel::Trace => "trace"@,
        LogLevel::Debug => "debug"@,
        LogLevel::Info => "info"@,
        LogLevel::Warn => "warn"@,
        LogLevel::Error => "error"@,
        LogLevel::Off => "off"@,
    }
}

impl LogLevel {
    /// The place of the level in the order of levels.
    pub fn rank(&self) -> (r: u8)
        ensures
            r == log_rank(*self),
    {
        match self {
            LogLevel::Trace => 0,
            LogLevel::Debug => 1,
            LogLevel::Info => 2,
            LogLevel::Warn => 3,
            LogLevel::Error => 4,
            LogLevel::Off => 5,
        }
    }

    /// The lowercase name of the level.
    pub fn to_string(&self) -> (r: String)
        ensures
            r@ == log_level_name(*self),
    {
        match self {
            LogLevel::Trace => String::from_str("trace"),
            LogLevel::Debug => String::from_str("debug"),
            LogLevel::Info => String::from_str("info"),
            LogLevel::Warn => String::from_str("warn"),
            LogLevel::Error => String::from_str("error"),
            LogLevel::Off => String::from_str("off"),
        }
    }
}

impl PartialOrd for LogLevel {
    fn partial_cmp(&self, other: &Self) -> (r: Option<Ordering>) {
        let a = self.rank();
        let b = other.rank();
        if a < b {
            Some(Ordering::Less)
        } else if a == b {
            Some(Ordering::Equal)
        } else {
            Some(Ordering::Greater)
        }
    }
}

impl PartialOrdSpecImpl for LogLevel {
    open spec fn obeys_partial_cmp_spec() -> bool {
        true
    }

    open spec fn partial_cmp_spec(&self, other: &Self) -> Option<Ordering> {
        if log_rank(*self) < log_rank(*other) {
            Some(Ordering::Less)
        } else if log_rank(*self) == log_rank(*other) {
            Some(Ordering::Equal)
        } else {
            Some(Ordering::Greater)
        }
    }
}

} // verus!
