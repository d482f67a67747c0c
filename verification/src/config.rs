//! The options the monitor recognises, with their defaults.

use crate::parser::WarningLevel;
use crate::text::texts;
use vstd::prelude::*;

verus! {

/// Settings of one monitor: which file is watched, where the snapshot goes,
/// which keywords select a line, and how much the viewer side may hold.
#[derive(Debug)]
pub struct LogMonitorConfig {
    /// Path of the snapshot that accepted entries are appended to.
    pub log_file_path: String,
    /// Path of the text log that is watched for new lines.
    pub monitored_file: String,
    /// Keywords that mark a line as an error of high priority.
    pub high_priority_keywords: Vec<String>,
    /// Keywords that mark a line as critical, of very high priority.
    pub very_high_priority_keywords: Vec<String>,
    /// Keywords that mark a line as a warning. There is none unless one is
    /// set.
    pub warning_keywords: Vec<String>,
    /// Priority of warnings.
    pub warning_level: WarningLevel,
    /// Pause between two polls, in milliseconds.
    pub check_interval_ms: u64,
    /// Number of entries the viewer keeps.
    pub max_logs: usize,
    /// Number of entries that may wait between ingestion and viewer.
    pub channel_capacity: usize,
}

impl LogMonitorConfig {
    /// The documented defaults.
    pub open spec fn is_default(&self) -> bool {
        &&& self.log_file_path@ == "./filtered_log.json"@
        &&& self.monitored_file@ == "./test_log.txt"@
        &&& texts(self.high_priority_keywords@) == seq!["ERROR"@]
        &&& texts(self.very_high_priority_keywords@) == seq!["CRITICAL"@]
        &&& texts(self.warning_keywords@) == Seq::<Seq<char>>::empty()
        &&& self.warning_level == WarningLevel::Medium
        &&& self.check_interval_ms == 100
        &&& self.max_logs == 1000
        &&& self.channel_capacity == 100
    }

    pub fn new() -> (config: Self)
        ensures
            config.is_default(),
    {
        let mut high: Vec<String> = Vec::new();
        high.push("ERROR".to_owned());
        let mut very_high: Vec<String> = Vec::new();
        very_high.push("CRITICAL".to_owned());
        let config = LogMonitorConfig {
            log_file_path: "./filtered_log.json".to_owned(),
            monitored_file: "./test_log.txt".to_owned(),
            high_priority_keywords: high,
            very_high_priority_keywords: very_high,
            warning_keywords: Vec::new(),
            warning_level: WarningLevel::Medium,
            check_interval_ms: 100,
            max_logs: 1000,
            channel_capacity: 100,
        };
        assert(texts(config.high_priority_keywords@) =~= seq!["ERROR"@]);
        assert(texts(config.very_high_priority_keywords@) =~= seq!["CRITICAL"@]);
        assert(texts(config.warning_keywords@) =~= Seq::<Seq<char>>::empty());
        config
    }

    /// The same settings with the snapshot written to `path`.
    pub fn with_log_file(self, path: String) -> (config: Self)
        ensures
            config == (LogMonitorConfig { log_file_path: path, ..self }),
    {
        let mut config = self;
        config.log_file_path = path;
        config
    }

    /// The same settings with `keywords` as the keywords of warnings, which
    /// get the priority `level`.
    pub fn with_warnings(self, keywords: Vec<String>, level: WarningLevel) -> (config: Self)
        ensures
            config == (LogMonitorConfig {
                warning_keywords: keywords,
                warning_level: level,
                ..self
            }),
    {
        let mut config = self;
        config.warning_keywords = keywords;
        config.warning_level = level;
        config
    }

    /// The same settings with `path` as the file that is watched.
    pub fn with_monitored_file(self, path: String) -> (config: Self)
        ensures
            config == (LogMonitorConfig { monitored_file: path, ..self }),
    {
        let mut config = self;
        config.monitored_file = path;
        config
    }
}

impl Default for LogMonitorConfig {
    fn default() -> (config: Self)
        ensures
            config.is_default(),
    {
        LogMonitorConfig::new()
    }
}

impl Clone for LogMonitorConfig {
    fn clone(&self) -> (copy: Self)
        ensures
            copy.log_file_path@ == self.log_file_path@,
            copy.monitored_file@ == self.monitored_file@,
            texts(copy.high_priority_keywords@) == texts(self.high_priority_keywords@),
            texts(copy.very_high_priority_keywords@) == texts(self.very_high_priority_keywords@),
            texts(copy.warning_keywords@) == texts(self.warning_keywords@),
            copy.warning_level == self.warning_level,
            copy.check_interval_ms == self.check_interval_ms,
            copy.max_logs == self.max_logs,
            copy.channel_capacity == self.channel_capacity,
    {
        LogMonitorConfig {
            log_file_path: self.log_file_path.clone(),
            monitored_file: self.monitored_file.clone(),
            high_priority_keywords: crate::text::copy_texts(&self.high_priority_keywords),
            very_high_priority_keywords: crate::text::copy_texts(&self.very_high_priority_keywords),
            warning_keywords: crate::text::copy_texts(&self.warning_keywords),
            warning_level: self.warning_level,
            check_interval_ms: self.check_interval_ms,
            max_logs: self.max_logs,
            channel_capacity: self.channel_capacity,
        }
    }
}

} // verus!
