use bevy_editor::editor_log::{EditorLog, LogEntry, LogLevel, LOG_CAPACITY};
use std::time::SystemTime;

#[test]
fn level_labels() {
    assert_eq!(LogLevel::Trace.label(), "TRACE");
    assert_eq!(LogLevel::Info.label(), "INFO");
    assert_eq!(LogLevel::Warn.label(), "WARN");
    assert_eq!(LogLevel::Error.label(), "ERROR");
}

#[test]
fn level_at_least() {
    assert!(LogLevel::Error.at_least(LogLevel::Warn));
    assert!(LogLevel::Warn.at_least(LogLevel::Warn));
    assert!(!LogLevel::Info.at_least(LogLevel::Warn));
    assert!(LogLevel::Trace.at_least(LogLevel::Trace));
    assert!(!LogLevel::Trace.at_least(LogLevel::Info));
}

#[test]
fn push_and_snapshot() {
    let mut log = EditorLog::default();
    assert!(log.is_empty());
    log.push(LogLevel::Info, "hello".to_string());
    log.push_with_target(LogLevel::Warn, "editor::assets".to_string(), "careful".to_string());
    assert_eq!(log.len(), 2);
    let snap = log.snapshot();
    assert!(log.is_empty());
    assert_eq!(snap.len(), 2);
    assert_eq!(snap[0].level, LogLevel::Info);
    assert_eq!(snap[0].message, "hello");
    assert_eq!(snap[0].target, None);
    assert_eq!(snap[1].level, LogLevel::Warn);
    assert_eq!(snap[1].message, "careful");
    assert_eq!(snap[1].target.as_deref(), Some("editor::assets"));
    assert!(snap[0].timestamp <= snap[1].timestamp);
}

#[test]
fn push_entry_keeps_timestamp() {
    let mut log = EditorLog::default();
    let t = SystemTime::UNIX_EPOCH;
    log.push_entry(LogEntry { timestamp: t, level: LogLevel::Error, message: "boom".to_string(), target: None });
    let snap = log.snapshot();
    assert_eq!(snap[0].timestamp, t);
    assert_eq!(snap[0].message, "boom");
}

#[test]
fn log_keeps_newest_ten_thousand() {
    let mut log = EditorLog::default();
    for i in 0..(LOG_CAPACITY + 5) {
        log.push(LogLevel::Trace, format!("line {i}"));
    }
    assert_eq!(log.len(), 10_000);
    let snap = log.snapshot();
    assert_eq!(snap[0].message, "line 5");
    assert_eq!(snap[snap.len() - 1].message, "line 10004");
}

#[test]
fn snapshot_drains_and_entries_copies() {
    let mut log = EditorLog::default();
    log.push(LogLevel::Info, "a".to_string());
    log.push(LogLevel::Warn, "b".to_string());
    let copy = log.entries();
    assert_eq!(copy.len(), 2);
    assert_eq!(log.len(), 2);
    let drained = log.snapshot();
    assert_eq!(drained.len(), 2);
    assert_eq!(drained[1].message, "b");
    assert_eq!(log.len(), 0);
    assert!(log.snapshot().is_empty());
    log.push(LogLevel::Error, "c".to_string());
    assert_eq!(log.entries()[0].message, "c");
}

#[test]
fn clear_empties_log() {
    let mut log = EditorLog::default();
    log.push(LogLevel::Info, "x".to_string());
    log.clear();
    assert!(log.is_empty());
    assert_eq!(log.len(), 0);
}
