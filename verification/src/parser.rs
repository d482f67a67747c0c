//! Classification of raw lines by keyword.
//!
//! Three classes of keywords are tried in a fixed order: critical, error,
//! warning. The first class with a keyword that occurs in the line decides
//! the type, and the type alone decides the priority.

use crate::config::LogMonitorConfig;
use crate::text::{contains_text, copy_texts, occurs_in, texts, trim_text, trimmed};
use crate::types::{LogEntry, LogEntryView, LogPriority, LogType};
use crate::utils::current_timestamp;
use vstd::prelude::*;

verus! {

/// The priority given to lines of the warning class.
#[derive(Debug, Clone, Copy, PartialEq, Eq, Structural)]
pub enum WarningLevel {
    Low,
    Medium,
}

/// The one table from type to priority.
pub open spec fn priority_of(log_type: LogType, warnings: WarningLevel) -> LogPriority {
    match log_type {
        LogType::Critical => LogPriority::VeryHigh,
        LogType::Error => LogPriority::High,
        LogType::Warning => match warnings {
            WarningLevel::Low => LogPriority::Low,
            WarningLevel::Medium => LogPriority::Medium,
        },
        LogType::Info => LogPriority::Low,
    }
}

/// The one table from type to priority.
pub fn priority_for(log_type: LogType, warnings: WarningLevel) -> (priority: LogPriority)
    ensures
        priority == priority_of(log_type, warnings),
{
    match log_type {
        LogType::Critical => LogPriority::VeryHigh,
        LogType::Error => LogPriority::High,
        LogType::Warning => match warnings {
            WarningLevel::Low => LogPriority::Low,
            WarningLevel::Medium => LogPriority::Medium,
        },
        LogType::Info => LogPriority::Low,
    }
}

/// Some keyword of `keywords` occurs in `line`. The match is by exact
/// characters: case counts.
pub open spec fn any_occurs(keywords: Seq<Seq<char>>, line: Seq<char>) -> bool {
    exists|k: int| 0 <= k < keywords.len() && occurs_in(#[trigger] keywords[k], line)
}

/// The keyword lists of a classifier, as plain values.
pub struct Rules {
    pub very_high: Seq<Seq<char>>,
    pub high: Seq<Seq<char>>,
    pub warning: Seq<Seq<char>>,
    pub warnings: WarningLevel,
}

impl Rules {
    /// The type of the first class that has a keyword in `line`.
    pub open spec fn matched_type(self, line: Seq<char>) -> Option<LogType> {
        if any_occurs(self.very_high, line) {
            Some(LogType::Critical)
        } else if any_occurs(self.high, line) {
            Some(LogType::Error)
        } else if any_occurs(self.warning, line) {
            Some(LogType::Warning)
        } else {
            None
        }
    }

    /// Type and priority of `line`, or `None` for a line that no keyword
    /// selects.
    pub open spec fn classification(self, line: Seq<char>) -> Option<(LogType, LogPriority)> {
        match self.matched_type(line) {
            Some(log_type) => Some((log_type, priority_of(log_type, self.warnings))),
            None => None,
        }
    }

    /// The entry made of `line` at time `timestamp`.
    pub open spec fn entry(self, line: Seq<char>, timestamp: u64) -> Option<LogEntryView> {
        match self.classification(line) {
            Some((log_type, priority)) => Some(
                LogEntryView {
                    timestamp,
                    log_type,
                    priority,
                    message: trimmed(line),
                    notified: None,
                },
            ),
            None => None,
        }
    }

    /// The rules that select lines with `CRITICAL` and lines with `ERROR`.
    pub open spec fn standard() -> Rules {
        Rules {
            very_high: seq!["CRITICAL"@],
            high: seq!["ERROR"@],
            warning: seq![],
            warnings: WarningLevel::Medium,
        }
    }
}

/// Keyword lists by class.
#[derive(Debug)]
pub struct Classifier {
    pub very_high_keywords: Vec<String>,
    pub high_keywords: Vec<String>,
    pub warning_keywords: Vec<String>,
    pub warning_level: WarningLevel,
}

impl View for Classifier {
    type V = Rules;

    open spec fn view(&self) -> Rules {
        Rules {
            very_high: texts(self.very_high_keywords@),
            high: texts(self.high_keywords@),
            warning: texts(self.warning_keywords@),
            warnings: self.warning_level,
        }
    }
}

fn any_keyword_in(keywords: &Vec<String>, line: &str) -> (found: bool)
    ensures
        found == any_occurs(texts(keywords@), line@),
{
    let mut i: usize = 0;
    while i < keywords.len()
        invariant
            i <= keywords.len(),
            forall|k: int| 0 <= k < i ==> !occurs_in(#[trigger] texts(keywords@)[k], line@),
        decreases keywords.len() - i,
    {
        if contains_text(line, keywords[i].as_str()) {
            assert(occurs_in(texts(keywords@)[i as int], line@));
            return true;
        }
        i = i + 1;
    }
    false
}

impl Classifier {
    /// A classifier for critical and error lines, without a warning class.
    pub fn new(very_high_keywords: Vec<String>, high_keywords: Vec<String>) -> (c: Self)
        ensures
            c@ == (Rules {
                very_high: texts(very_high_keywords@),
                high: texts(high_keywords@),
                warning: seq![],
                warnings: WarningLevel::Medium,
            }),
    {
        let c = Classifier {
            very_high_keywords,
            high_keywords,
            warning_keywords: Vec::new(),
            warning_level: WarningLevel::Medium,
        };
        assert(texts(c.warning_keywords@) =~= seq![]);
        c
    }

    /// The classifier that selects lines with `CRITICAL` and lines with `ERROR`.
    pub fn standard() -> (c: Self)
        ensures
            c@ == Rules::standard(),
    {
        let mut very_high: Vec<String> = Vec::new();
        very_high.push("CRITICAL".to_owned());
        let mut high: Vec<String> = Vec::new();
        high.push("ERROR".to_owned());
        assert(texts(very_high@) =~= seq!["CRITICAL"@]);
        assert(texts(high@) =~= seq!["ERROR"@]);
        Classifier::new(very_high, high)
    }

    /// The classifier with the keyword lists of `config`.
    pub fn from_config(config: &LogMonitorConfig) -> (c: Self)
        ensures
            c@ == (Rules {
                very_high: texts(config.very_high_priority_keywords@),
                high: texts(config.high_priority_keywords@),
                warning: texts(config.warning_keywords@),
                warnings: config.warning_level,
            }),
    {
        Classifier::new(
            copy_texts(&config.very_high_priority_keywords),
            copy_texts(&config.high_priority_keywords),
        ).with_warnings(copy_texts(&config.warning_keywords), config.warning_level)
    }

    /// The same classifier with `keywords` as its warning class, at `level`.
    pub fn with_warnings(self, keywords: Vec<String>, level: WarningLevel) -> (c: Self)
        ensures
            c@ == (Rules { warning: texts(keywords@), warnings: level, ..self@ }),
    {
        let mut c = self;
        c.warning_keywords = keywords;
        c.warning_level = level;
        c
    }

    /// Type and priority of `line`, or `None` for a line that no keyword
    /// selects. Such a line is dropped; that is no error.
    pub fn classify(&self, line: &str) -> (r: Option<(LogType, LogPriority)>)
        ensures
            r == self@.classification(line@),
    {
        let log_type = if any_keyword_in(&self.very_high_keywords, line) {
            LogType::Critical
        } else if any_keyword_in(&self.high_keywords, line) {
            LogType::Error
        } else if any_keyword_in(&self.warning_keywords, line) {
            LogType::Warning
        } else {
            return None;
        };
        Some((log_type, priority_for(log_type, self.warning_level)))
    }

    /// The entry made of `line` at time `timestamp`, or `None` for a line
    /// that no keyword selects.
    pub fn entry_at(&self, line: &str, timestamp: u64) -> (r: Option<LogEntry>)
        ensures
            r.is_some() == self@.entry(line@, timestamp).is_some(),
            r matches Some(e) ==> Some(e@) == self@.entry(line@, timestamp),
    {
        match self.classify(line) {
            Some((log_type, priority)) => Some(
                LogEntry {
                    timestamp,
                    log_type,
                    priority,
                    message: sanitize_log_message(line),
                    notified: None,
                },
            ),
            None => None,
        }
    }
}

/// `message` without leading and trailing white space.
pub fn sanitize_log_message(message: &str) -> (clean: String)
    ensures
        clean@ == trimmed(message@),
{
    trim_text(message)
}

/// The entry that the standard rules make of `line` at time `timestamp`:
/// critical for a line with `CRITICAL`, else an error for a line with
/// `ERROR`, else none.
pub fn parse_log_line_at(line: &str, timestamp: u64) -> (r: Option<LogEntry>)
    ensures
        r.is_some() == Rules::standard().entry(line@, timestamp).is_some(),
        r matches Some(e) ==> Some(e@) == Rules::standard().entry(line@, timestamp),
{
    Classifier::standard().entry_at(line, timestamp)
}

/// As [`parse_log_line_at`], at the time the system clock shows. Whether an
/// entry is made, and all of it but the timestamp, depends on `line` alone.
pub fn parse_log_line(line: &str) -> (r: Option<LogEntry>)
    ensures
        r.is_some() == Rules::standard().classification(line@).is_some(),
        r matches Some(e) ==> Some(e@) == Rules::standard().entry(line@, e.timestamp),
{
    parse_log_line_at(line, current_timestamp())
}

/// A line with a keyword of the very-high class is critical, of very high
/// priority, whatever the other classes hold.
pub proof fn lemma_very_high_keyword_wins(rules: Rules, line: Seq<char>, k: int)
    requires
        0 <= k < rules.very_high.len(),
        occurs_in(rules.very_high[k], line),
    ensures
        rules.classification(line) == Some((LogType::Critical, LogPriority::VeryHigh)),
{
}

/// The priority of a classified line follows from its type by the one table.
pub proof fn lemma_priority_follows_type(rules: Rules, line: Seq<char>)
    ensures
        rules.classification(line) matches Some((log_type, priority)) ==> priority == priority_of(
            log_type,
            rules.warnings,
        ) && log_type != LogType::Info,
{
}

} // verus!
