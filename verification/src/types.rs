//! The entry that travels through the pipeline, and its two classifications.

use vstd::prelude::*;

verus! {

/// Kind of event a log line reports.
#[derive(Debug, Clone, Copy, PartialEq, Eq, Structural)]
pub enum LogType {
    Error,
    Critical,
    Warning,
    Info,
}

/// Urgency of an entry. The variants are listed from least to most urgent.
#[derive(Debug, Clone, Copy, PartialEq, Eq, Structural, PartialOrd, Ord)]
pub enum LogPriority {
    Low,
    Medium,
    High,
    VeryHigh,
}

impl LogType {
    /// The name under which the type is displayed and stored.
    pub open spec fn name(self) -> Seq<char> {
        match self {
            LogType::Error => "ERROR"@,
            LogType::Critical => "CRITICAL"@,
            LogType::Warning => "WARNING"@,
            LogType::Info => "INFO"@,
        }
    }

    /// The type that bears the name `text`, if any. Names are matched exactly.
    pub open spec fn named(text: Seq<char>) -> Option<LogType> {
        if text == "ERROR"@ {
            Some(LogType::Error)
        } else if text == "CRITICAL"@ {
            Some(LogType::Critical)
        } else if text == "WARNING"@ {
            Some(LogType::Warning)
        } else if text == "INFO"@ {
            Some(LogType::Info)
        } else {
            None
        }
    }

    pub fn as_str(&self) -> (s: &'static str)
        ensures
            s@ == self.name(),
    {
        match self {
            LogType::Error => "ERROR",
            LogType::Critical => "CRITICAL",
            LogType::Warning => "WARNING",
            LogType::Info => "INFO",
        }
    }

    pub fn from_name(text: &str) -> (r: Option<LogType>)
        ensures
            r == LogType::named(text@),
    {
        let owned = text.to_owned();
        if owned == "ERROR".to_owned() {
            Some(LogType::Error)
        } else if owned == "CRITICAL".to_owned() {
            Some(LogType::Critical)
        } else if owned == "WARNING".to_owned() {
            Some(LogType::Warning)
        } else if owned == "INFO".to_owned() {
            Some(LogType::Info)
        } else {
            None
        }
    }

    /// Every type is found again under its own name.
    pub proof fn lemma_name_round_trip(self)
        ensures
            LogType::named(self.name()) == Some(self),
    {
        reveal_strlit("ERROR");
        reveal_strlit("CRITICAL");
        reveal_strlit("WARNING");
        reveal_strlit("INFO");
        assert("ERROR"@.len() == 5);
        assert("CRITICAL"@.len() == 8);
        assert("WARNING"@.len() == 7);
        assert("INFO"@.len() == 4);
    }
}

impl LogPriority {
    /// Position in the order `Low < Medium < High < VeryHigh`.
    pub open spec fn rank(self) -> nat {
        match self {
            LogPriority::Low => 0,
            LogPriority::Medium => 1,
            LogPriority::High => 2,
            LogPriority::VeryHigh => 3,
        }
    }

    /// The name under which the priority is displayed and stored.
    pub open spec fn name(self) -> Seq<char> {
        match self {
            LogPriority::Low => "low"@,
            LogPriority::Medium => "medium"@,
            LogPriority::High => "high"@,
            LogPriority::VeryHigh => "very high"@,
        }
    }

    /// The priority that bears the name `text`, if any.
    pub open spec fn named(text: Seq<char>) -> Option<LogPriority> {
        if text == "low"@ {
            Some(LogPriority::Low)
        } else if text == "medium"@ {
            Some(LogPriority::Medium)
        } else if text == "high"@ {
            Some(LogPriority::High)
        } else if text == "very high"@ {
            Some(LogPriority::VeryHigh)
        } else {
            None
        }
    }

    /// Whether `self` is at least as urgent as `floor`.
    pub fn at_least(self, floor: LogPriority) -> (r: bool)
        ensures
            r == (self.rank() >= floor.rank()),
    {
        self.level() >= floor.level()
    }

    fn level(self) -> (n: u8)
        ensures
            n == self.rank(),
    {
        match self {
            LogPriority::Low => 0,
            LogPriority::Medium => 1,
            LogPriority::High => 2,
            LogPriority::VeryHigh => 3,
        }
    }

    pub fn as_str(&self) -> (s: &'static str)
        ensures
            s@ == self.name(),
    {
        match self {
            LogPriority::Low => "low",
            LogPriority::Medium => "medium",
            LogPriority::High => "high",
            LogPriority::VeryHigh => "very high",
        }
    }

    pub fn from_name(text: &str) -> (r: Option<LogPriority>)
        ensures
            r == LogPriority::named(text@),
    {
        let owned = text.to_owned();
        if owned == "low".to_owned() {
            Some(LogPriority::Low)
        } else if owned == "medium".to_owned() {
            Some(LogPriority::Medium)
        } else if owned == "high".to_owned() {
            Some(LogPriority::High)
        } else if owned == "very high".to_owned() {
            Some(LogPriority::VeryHigh)
        } else {
            None
        }
    }

    /// Every priority is found again under its own name.
    pub proof fn lemma_name_round_trip(self)
        ensures
            LogPriority::named(self.name()) == Some(self),
    {
        reveal_strlit("low");
        reveal_strlit("medium");
        reveal_strlit("high");
        reveal_strlit("very high");
        assert("low"@.len() == 3);
        assert("medium"@.len() == 6);
        assert("high"@.len() == 4);
        assert("very high"@.len() == 9);
    }

    /// The ranks order the priorities totally: two priorities of equal rank
    /// are the same priority.
    pub proof fn lemma_rank_is_total(self, other: LogPriority)
        ensures
            self.rank() == other.rank() <==> self == other,
            self.rank() <= other.rank() || other.rank() <= self.rank(),
    {
    }
}

/// One classified log line.
///
/// An entry is made once, by classification. Only `notified` is written
/// afterwards, when the outcome of its alert is known.
#[derive(Debug)]
pub struct LogEntry {
    /// Seconds since the Unix epoch at which the line was classified.
    pub timestamp: u64,
    pub log_type: LogType,
    pub priority: LogPriority,
    /// The line, without leading and trailing white space.
    pub message: String,
    /// `None` while no alert was attempted, else whether the alert went out.
    pub notified: Option<bool>,
}

/// What an entry holds, as plain mathematical values.
pub struct LogEntryView {
    pub timestamp: u64,
    pub log_type: LogType,
    pub priority: LogPriority,
    pub message: Seq<char>,
    pub notified: Option<bool>,
}

impl View for LogEntry {
    type V = LogEntryView;

    open spec fn view(&self) -> LogEntryView {
        LogEntryView {
            timestamp: self.timestamp,
            log_type: self.log_type,
            priority: self.priority,
            message: self.message@,
            notified: self.notified,
        }
    }
}

impl Clone for LogEntry {
    fn clone(&self) -> (copy: Self)
        ensures
            copy == *self,
    {
        LogEntry {
            timestamp: self.timestamp,
            log_type: self.log_type,
            priority: self.priority,
            message: self.message.clone(),
            notified: self.notified,
        }
    }
}

impl PartialEq for LogEntry {
    fn eq(&self, other: &Self) -> (same: bool) {
        self.timestamp == other.timestamp && self.log_type == other.log_type && self.priority
            == other.priority && self.message == other.message && self.notified == other.notified
    }
}

impl vstd::std_specs::cmp::PartialEqSpecImpl for LogEntry {
    open spec fn obeys_eq_spec() -> bool {
        true
    }

    open spec fn eq_spec(&self, other: &Self) -> bool {
        self@ == other@
    }
}

/// The views of the entries of `entries`, in order.
pub open spec fn entry_views(entries: Seq<LogEntry>) -> Seq<LogEntryView> {
    entries.map_values(|e: LogEntry| e@)
}

} // verus!
