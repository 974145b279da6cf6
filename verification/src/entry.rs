//! What plugins exchange: log levels, entries, and the errors they give.
use vstd::prelude::*;

verus! {

/// How severe a log entry is, the least severe first.
#[derive(Clone, Copy, Debug, PartialEq, Eq, Structural)]
pub enum LogLevel {
    Debug,
    Info,
    Warn,
    Error,
    Crit,
    Alert,
    Emerg,
}

impl LogLevel {
    /// The place of a level in the order of severity.
    pub open spec fn spec_rank(self) -> u8 {
        match self {
            LogLevel::Debug => 0,
            LogLevel::Info => 1,
            LogLevel::Warn => 2,
            LogLevel::Error => 3,
            LogLevel::Crit => 4,
            LogLevel::Alert => 5,
            LogLevel::Emerg => 6,
        }
    }

    /// The place of a level in the order of severity.
    #[verifier::when_used_as_spec(spec_rank)]
    pub fn rank(self) -> (res: u8)
        ensures
            res == self.spec_rank(),
    {
        match self {
            LogLevel::Debug => 0,
            LogLevel::Info => 1,
            LogLevel::Warn => 2,
            LogLevel::Error => 3,
            LogLevel::Crit => 4,
            LogLevel::Alert => 5,
            LogLevel::Emerg => 6,
        }
    }
}

/// An entry as a parser plugin gives it, without an id.
#[derive(Debug)]
pub struct ParsedEntry {
    pub timestamp: String,
    pub level: LogLevel,
    pub message: String,
    pub tags: Vec<(String, String)>,
    /// Names the endpoints that the entry is meant for.
    pub targettag: String,
}

/// What an entry holds.
pub struct EntryModel {
    pub timestamp: Seq<char>,
    pub level: LogLevel,
    pub message: Seq<char>,
    pub tags: Seq<(Seq<char>, Seq<char>)>,
    pub targettag: Seq<char>,
}

/// Tags by name and value.
pub open spec fn tag_views(tags: Seq<(String, String)>) -> Seq<(Seq<char>, Seq<char>)> {
    Seq::new(tags.len(), |i: int| (tags[i].0@, tags[i].1@))
}

impl ParsedEntry {
    /// What the entry holds.
    pub open spec fn view(&self) -> EntryModel {
        EntryModel {
            timestamp: self.timestamp@,
            level: self.level,
            message: self.message@,
            tags: tag_views(self.tags@),
            targettag: self.targettag@,
        }
    }
}

/// An entry with the id that the host gave it.
#[derive(Debug)]
pub struct LogEntry {
    pub id: u64,
    pub timestamp: String,
    pub level: LogLevel,
    pub message: String,
    pub tags: Vec<(String, String)>,
}

/// What a filter plugin decides about one entry.
#[derive(Clone, Copy, Debug, PartialEq, Eq, Structural)]
pub struct FilterResult {
    pub id: u64,
    pub keep: bool,
}

/// Why a parser plugin refuses its input.
#[derive(Debug)]
pub enum ParseError {
    InvalidFormat(String),
    UnsupportedVersion(u16),
    CorruptedData,
}

/// Why a plugin call fails.
#[derive(Debug)]
pub enum PluginError {
    ProcessingFailed(String),
    ConfigError(String),
}

impl PluginError {
    /// The text that a failure carries.
    pub open spec fn text(self) -> Seq<char> {
        match self {
            PluginError::ProcessingFailed(t) => t@,
            PluginError::ConfigError(t) => t@,
        }
    }
}

/// Levels are ranked by severity, from the least severe on and without a gap, so
/// that no two levels have the same rank.
pub proof fn law_ranks_follow_severity(a: LogLevel, b: LogLevel)
    ensures
        LogLevel::Debug.spec_rank() == 0,
        LogLevel::Debug.spec_rank() + 1 == LogLevel::Info.spec_rank(),
        LogLevel::Info.spec_rank() + 1 == LogLevel::Warn.spec_rank(),
        LogLevel::Warn.spec_rank() + 1 == LogLevel::Error.spec_rank(),
        LogLevel::Error.spec_rank() + 1 == LogLevel::Crit.spec_rank(),
        LogLevel::Crit.spec_rank() + 1 == LogLevel::Alert.spec_rank(),
        LogLevel::Alert.spec_rank() + 1 == LogLevel::Emerg.spec_rank(),
        a.spec_rank() == b.spec_rank() ==> a == b,
{
}

/// Tags are told by the name and the value of each, in their order and none left
/// out; so is all else that an entry holds.
pub proof fn law_entry_is_told_in_full(e: ParsedEntry)
    ensures
        e@.timestamp == e.timestamp@,
        e@.level == e.level,
        e@.message == e.message@,
        e@.targettag == e.targettag@,
        e@.tags.len() == e.tags@.len(),
        forall|i: int|
            0 <= i < e.tags@.len() ==> #[trigger] e@.tags[i] == (e.tags@[i].0@, e.tags@[i].1@),
{
}

/// The text of a failure is the one that it was given, whichever failure it is.
pub proof fn law_failure_keeps_its_text(t: String)
    ensures
        PluginError::ProcessingFailed(t).text() == t@,
        PluginError::ConfigError(t).text() == t@,
{
}

} // verus!
