//! The editor log buffer: the most recent log lines, shown by the console panel.

use vstd::prelude::*;
use std::time::SystemTime;

verus! {

/// A point in wall-clock time.
#[verifier::external_type_specification]
#[verifier::external_body]
pub struct ExSystemTime(SystemTime);

/// The current wall-clock time (`SystemTime::now`). Nothing is promised of the value:
/// it depends on the machine's clock.
#[verifier::external_body]
pub(crate) fn current_time() -> SystemTime {
    SystemTime::now()
}

/// Severity of a [`LogEntry`].
#[derive(Debug, Clone, Copy, PartialEq, Eq, Hash, Structural)]
pub enum LogLevel {
    /// Verbose / debug-level trace.
    Trace,
    /// Informational.
    Info,
    /// Warning.
    Warn,
    /// Error.
    Error,
}

/// The severity rank of a level: Trace < Info < Warn < Error.
pub open spec fn level_rank(l: LogLevel) -> int {
    match l {
        LogLevel::Trace => 0,
        LogLevel::Info => 1,
        LogLevel::Warn => 2,
        LogLevel::Error => 3,
    }
}

/// The short label of a level.
pub open spec fn level_label(l: LogLevel) -> Seq<char> {
    match l {
        LogLevel::Trace => "TRACE"@,
        LogLevel::Info => "INFO"@,
        LogLevel::Warn => "WARN"@,
        LogLevel::Error => "ERROR"@,
    }
}

impl LogLevel {
    /// A short label for the level.
    pub fn label(self) -> (r: &'static str)
        ensures
            r@ == level_label(self),
    {
        match self {
            LogLevel::Trace => "TRACE",
            LogLevel::Info => "INFO",
            LogLevel::Warn => "WARN",
            LogLevel::Error => "ERROR",
        }
    }

    /// Whether this level should be displayed given a `min_level`.
    pub fn at_least(self, min_level: LogLevel) -> (r: bool)
        ensures
            r == (level_rank(self) >= level_rank(min_level)),
    {
        let a: u8 = match self {
            LogLevel::Trace => 0,
            LogLevel::Info => 1,
            LogLevel::Warn => 2,
            LogLevel::Error => 3,
        };
        let b: u8 = match min_level {
            LogLevel::Trace => 0,
            LogLevel::Info => 1,
            LogLevel::Warn => 2,
            LogLevel::Error => 3,
        };
        a >= b
    }
}

/// `at_least` is a total order on levels: reflexive, transitive, total, and two levels
/// that are each at least the other are the same level.
pub proof fn lemma_at_least_total_order(a: LogLevel, b: LogLevel, c: LogLevel)
    ensures
        level_rank(a) >= level_rank(a),
        level_rank(a) >= level_rank(b) && level_rank(b) >= level_rank(c) ==> level_rank(a)
            >= level_rank(c),
        level_rank(a) >= level_rank(b) || level_rank(b) >= level_rank(a),
        level_rank(a) >= level_rank(b) && level_rank(b) >= level_rank(a) ==> a == b,
{
}

/// One entry in the [`EditorLog`].
#[derive(Debug)]
pub struct LogEntry {
    /// When the message was logged.
    pub timestamp: SystemTime,
    /// Severity of the message.
    pub level: LogLevel,
    /// The message body.
    pub message: String,
    /// Module that emitted the message, if known.
    pub target: Option<String>,
}

impl LogEntry {
    /// An identical copy of the entry.
    pub fn duplicate(&self) -> (r: LogEntry)
        ensures
            r == *self,
    {
        let target = match &self.target {
            Some(t) => Some(t.clone()),
            None => None,
        };
        LogEntry {
            timestamp: self.timestamp,
            level: self.level,
            message: self.message.clone(),
            target,
        }
    }
}

/// The most entries the log keeps; older ones are dropped first.
pub const LOG_CAPACITY: usize = 10000;

/// The newest `LOG_CAPACITY` items of `s` (all of them when there are no more).
pub open spec fn keep_newest<T>(s: Seq<T>) -> Seq<T> {
    if s.len() > LOG_CAPACITY {
        s.subrange(s.len() - LOG_CAPACITY, s.len() as int)
    } else {
        s
    }
}

/// The editor log buffer, oldest entry first.
#[derive(Debug)]
pub struct EditorLog {
    entries: Vec<LogEntry>,
}

impl View for EditorLog {
    type V = Seq<LogEntry>;

    closed spec fn view(&self) -> Seq<LogEntry> {
        self.entries@
    }
}

impl Default for EditorLog {
    fn default() -> (r: Self)
        ensures
            r@ == Seq::<LogEntry>::empty(),
    {
        EditorLog { entries: Vec::new() }
    }
}

impl EditorLog {
    /// Append an entry, dropping the oldest ones beyond [`LOG_CAPACITY`].
    pub fn push_entry(&mut self, entry: LogEntry)
        ensures
            final(self)@ == keep_newest(old(self)@.push(entry)),
            final(self)@.len() <= LOG_CAPACITY,
    {
        self.entries.push(entry);
        let n = self.entries.len();
        if n > LOG_CAPACITY {
            let newest = self.entries.split_off(n - LOG_CAPACITY);
            self.entries = newest;
        }
    }

    /// Push a new log entry, stamped with the current time.
    pub fn push(&mut self, level: LogLevel, message: String)
        ensures
            final(self)@ == keep_newest(
                old(self)@.push(
                    (LogEntry {
                        timestamp: final(self)@.last().timestamp,
                        level,
                        message,
                        target: None,
                    }),
                ),
            ),
            final(self)@.len() <= LOG_CAPACITY,
    {
        let entry = LogEntry { timestamp: current_time(), level, message, target: None };
        self.push_entry(entry);
    }

    /// Push a new log entry with a target, stamped with the current time.
    pub fn push_with_target(&mut self, level: LogLevel, target: String, message: String)
        ensures
            final(self)@ == keep_newest(
                old(self)@.push(
                    (LogEntry {
                        timestamp: final(self)@.last().timestamp,
                        level,
                        message,
                        target: Some(target),
                    }),
                ),
            ),
            final(self)@.len() <= LOG_CAPACITY,
    {
        let entry = LogEntry { timestamp: current_time(), level, message, target: Some(target) };
        self.push_entry(entry);
    }

    /// Drain all entries: they are returned, oldest first, and the log is left empty.
    pub fn snapshot(&mut self) -> (r: Vec<LogEntry>)
        ensures
            r@ == old(self)@,
            final(self)@ == Seq::<LogEntry>::empty(),
    {
        let mut out: Vec<LogEntry> = Vec::new();
        out.append(&mut self.entries);
        out
    }

    /// A copy of all entries, oldest first; the log is left as it is (the console
    /// renders from it every frame).
    pub fn entries(&self) -> (r: Vec<LogEntry>)
        ensures
            r@ == self@,
    {
        let mut out: Vec<LogEntry> = Vec::new();
        let mut i: usize = 0;
        while i < self.entries.len()
            invariant
                i <= self.entries@.len(),
                out@ == self.entries@.take(i as int),
            decreases self.entries@.len() - i,
        {
            out.push(self.entries[i].duplicate());
            i = i + 1;
            proof {
                assert(self.entries@.take(i as int) == self.entries@.take(i - 1).push(
                    self.entries@[i - 1],
                ));
            }
        }
        proof {
            assert(self.entries@.take(self.entries@.len() as int) == self.entries@);
        }
        out
    }

    /// Clear all log entries.
    pub fn clear(&mut self)
        ensures
            final(self)@ == Seq::<LogEntry>::empty(),
    {
        self.entries.clear();
    }

    /// The number of entries currently in the buffer.
    pub fn len(&self) -> (r: usize)
        ensures
            r == self@.len(),
    {
        self.entries.len()
    }

    /// Whether the buffer is empty.
    pub fn is_empty(&self) -> (r: bool)
        ensures
            r == (self@.len() == 0),
    {
        self.entries.is_empty()
    }
}

/// Pushing keeps the newest entries: the pushed entry is last, and every entry that
/// stays keeps its relative order; a log within capacity only grows by one.
pub proof fn lemma_push_keeps_newest<T>(s: Seq<T>, x: T)
    ensures
        keep_newest(s.push(x)).len() > 0,
        keep_newest(s.push(x)).last() == x,
        keep_newest(s.push(x)).len() <= LOG_CAPACITY,
        s.len() < LOG_CAPACITY ==> keep_newest(s.push(x)) == s.push(x),
        s.len() == LOG_CAPACITY ==> keep_newest(s.push(x)) == s.drop_first().push(x),
{
    if s.len() == LOG_CAPACITY {
        assert(s.push(x).subrange(1, s.len() as int + 1) == s.drop_first().push(x));
    }
}

} // verus!
