use bevy_editor::editor_log::{EditorLog, LogLevel};
use bevy_editor::panels::{
    AssetBrowserState, BottomTab, ConsoleOutcome, ConsoleState, HierarchyState, PanelVisibility, PendingActions,
    TransformMode, ViewportState,
};

fn messages(log: &EditorLog) -> Vec<(LogLevel, String)> {
    log.entries().into_iter().map(|e| (e.level, e.message)).collect()
}

#[test]
fn panel_defaults() {
    let v = PanelVisibility::default();
    assert!(v.viewport && v.scene_hierarchy && v.inspector);
    assert!(!v.about_open && !v.settings_open);
    assert_eq!(BottomTab::default(), BottomTab::Console);
    let c = ConsoleState::default();
    assert!(!c.show_trace && c.show_info && c.show_warn && c.show_error);
    assert!(c.command.is_empty());
    let vs = ViewportState::default();
    assert_eq!(vs.transform_mode, TransformMode::Select);
    assert!(!vs.add_component_open);
    let p = PendingActions::default();
    assert!(p.spawns.is_empty() && !p.save && p.load.is_none());
    assert!(p.visibility.is_empty() && p.locks.is_empty());
    assert!(!p.undo && !p.redo && !p.step);
}

#[test]
fn console_level_filter() {
    let mut c = ConsoleState::default();
    assert!(!c.shows(LogLevel::Trace));
    assert!(c.shows(LogLevel::Info));
    c.show_warn = false;
    assert!(!c.shows(LogLevel::Warn));
    assert!(c.shows(LogLevel::Error));
}

#[test]
fn console_help_command() {
    let mut c = ConsoleState::default();
    let mut log = EditorLog::default();
    c.command = "  help ".to_string();
    assert_eq!(c.run_command(&mut log, "0.1.0"), ConsoleOutcome::Done);
    assert!(c.command.is_empty());
    assert_eq!(
        messages(&log),
        vec![
            (LogLevel::Info, "> help".to_string()),
            (LogLevel::Info, "Available commands: help, clear, version, scan, save".to_string()),
        ]
    );
}

#[test]
fn console_other_commands() {
    let mut c = ConsoleState::default();
    let mut log = EditorLog::default();
    let mut outcomes = Vec::new();
    for cmd in ["version", " scan", "save ", "jump"] {
        c.command = cmd.to_string();
        outcomes.push(c.run_command(&mut log, "0.1.0"));
    }
    assert_eq!(
        outcomes,
        vec![
            ConsoleOutcome::Done,
            ConsoleOutcome::RescanAssets,
            ConsoleOutcome::SaveScene,
            ConsoleOutcome::Done,
        ]
    );
    assert_eq!(
        messages(&log),
        vec![
            (LogLevel::Info, "> version".to_string()),
            (LogLevel::Info, "Bevy Editor v0.1.0".to_string()),
            (LogLevel::Info, "> scan".to_string()),
            (LogLevel::Info, "Re-scanning assets...".to_string()),
            (LogLevel::Info, "> save".to_string()),
            (LogLevel::Info, "Saving scene...".to_string()),
            (LogLevel::Info, "> jump".to_string()),
            (LogLevel::Warn, "Unknown command: jump".to_string()),
        ]
    );
}

#[test]
fn console_clear_and_empty_commands() {
    let mut c = ConsoleState::default();
    let mut log = EditorLog::default();
    log.push(LogLevel::Error, "old".to_string());
    c.command = "   ".to_string();
    assert_eq!(c.run_command(&mut log, "1"), ConsoleOutcome::Nothing);
    assert_eq!(c.command, "   ");
    assert_eq!(log.len(), 1);
    c.command = "clear".to_string();
    assert_eq!(c.run_command(&mut log, "1"), ConsoleOutcome::Done);
    assert!(log.is_empty());
    assert!(c.command.is_empty());
}

#[test]
fn hierarchy_rename() {
    let mut h = HierarchyState::default();
    h.begin_rename(12, "Cube".to_string());
    assert_eq!(h.renaming, Some(12));
    assert_eq!(h.rename_buf, "Cube");
    h.rename_buf = "  Big Cube ".to_string();
    let req = h.finish_rename(12).unwrap();
    assert_eq!(req.entity, 12);
    assert_eq!(req.new_name, "Big Cube");
    assert_eq!(h.renaming, None);
    h.begin_rename(3, " ".to_string());
    assert!(h.finish_rename(3).is_none());
    assert_eq!(h.renaming, None);
}

#[test]
fn list_filters() {
    let mut h = HierarchyState::default();
    assert!(h.shows_name("Anything"));
    h.filter = "LIGHT".to_string();
    assert!(h.shows_name("Point Light"));
    assert!(!h.shows_name("Camera"));
    let mut a = AssetBrowserState::default();
    a.filter = "Tex".to_string();
    assert!(a.shows_path("textures/a.png"));
    assert!(!a.shows_path("audio/a.ogg"));
}

#[test]
fn console_command_keeps_earlier_entries() {
    let mut c = ConsoleState::default();
    let mut log = EditorLog::default();
    let t = std::time::SystemTime::UNIX_EPOCH;
    log.push_entry(bevy_editor::editor_log::LogEntry {
        timestamp: t,
        level: LogLevel::Warn,
        message: "earlier".to_string(),
        target: Some("editor::x".to_string()),
    });
    c.command = "version".to_string();
    assert_eq!(c.run_command(&mut log, "2.0"), ConsoleOutcome::Done);
    let entries = log.entries();
    assert_eq!(entries.len(), 3);
    assert_eq!(entries[0].timestamp, t);
    assert_eq!(entries[0].message, "earlier");
    assert_eq!(entries[0].target.as_deref(), Some("editor::x"));
    assert_eq!(entries[2].message, "Bevy Editor v2.0");
}
