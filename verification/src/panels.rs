//! Persistent state of the editor panels, and the logic the panels run on it:
//! console filtering and commands, entity renaming in the hierarchy.

use vstd::prelude::*;
use crate::components::{
    DeleteEntityRequest, DuplicateEntityRequest, RenameEntityRequest, SetHiddenRequest,
    SetLockedRequest, SpawnRequest,
};
use crate::editor_log::{EditorLog, LogEntry, LogLevel, LOG_CAPACITY, keep_newest};
use crate::text::{joined, matches_filter, passes_filter, same_text, trim, trimmed};

verus! {

/// Per-panel visibility flags, toggled from the View menu.
#[derive(Debug, Clone, Copy, PartialEq, Eq, Structural)]
pub struct PanelVisibility {
    /// Viewport panel visible?
    pub viewport: bool,
    /// Scene hierarchy panel visible?
    pub scene_hierarchy: bool,
    /// Inspector panel visible?
    pub inspector: bool,
    /// About dialog open?
    pub about_open: bool,
    /// Settings window open?
    pub settings_open: bool,
}

impl Default for PanelVisibility {
    fn default() -> (r: Self)
        ensures
            r == (PanelVisibility {
                viewport: true,
                scene_hierarchy: true,
                inspector: true,
                about_open: false,
                settings_open: false,
            }),
    {
        PanelVisibility {
            viewport: true,
            scene_hierarchy: true,
            inspector: true,
            about_open: false,
            settings_open: false,
        }
    }
}

/// Which tab is active in the bottom panel.
#[derive(Debug, Clone, Copy, PartialEq, Eq, Structural)]
pub enum BottomTab {
    /// Log output and command input.
    Console,
    /// Asset file list.
    Assets,
    /// Build output.
    Output,
}

impl Default for BottomTab {
    fn default() -> (r: Self)
        ensures
            r == BottomTab::Console,
    {
        BottomTab::Console
    }
}

/// The log lines as (level, message, target) triples, oldest first.
pub open spec fn log_lines(s: Seq<LogEntry>) -> Seq<(LogLevel, Seq<char>, Option<String>)> {
    s.map_values(|e: LogEntry| (e.level, e.message@, e.target))
}

/// The text listing the console commands.
pub open spec fn help_text() -> Seq<char> {
    "Available commands: help, clear, version, scan, save"@
}

/// The line the console answers a (trimmed, non-empty) command with, after echoing it;
/// `clear` has none, it empties the log.
pub open spec fn console_reply(cmd: Seq<char>, version: Seq<char>) -> (LogLevel, Seq<char>) {
    if cmd == "help"@ {
        (LogLevel::Info, help_text())
    } else if cmd == "version"@ {
        (LogLevel::Info, "Bevy Editor v"@ + version)
    } else if cmd == "scan"@ {
        (LogLevel::Info, "Re-scanning assets..."@)
    } else if cmd == "save"@ {
        (LogLevel::Info, "Saving scene..."@)
    } else {
        (LogLevel::Warn, "Unknown command: "@ + cmd)
    }
}

/// A log line without a target.
pub open spec fn untargeted(line: (LogLevel, Seq<char>)) -> (LogLevel, Seq<char>, Option<String>) {
    (line.0, line.1, None)
}

/// The log lines after the console has run `cmd` (trimmed, non-empty) on `lines`: the
/// command is echoed as `> cmd`, then answered, or the log is cleared for `clear`.
pub open spec fn lines_after_command(
    lines: Seq<(LogLevel, Seq<char>, Option<String>)>,
    cmd: Seq<char>,
    version: Seq<char>,
) -> Seq<(LogLevel, Seq<char>, Option<String>)> {
    if cmd == "clear"@ {
        Seq::empty()
    } else {
        let echoed = keep_newest(lines.push(untargeted((LogLevel::Info, "> "@ + cmd))));
        keep_newest(echoed.push(untargeted(console_reply(cmd, version))))
    }
}

proof fn lemma_lines_of_push(s: Seq<LogEntry>, e: LogEntry)
    ensures
        log_lines(keep_newest(s.push(e))) == keep_newest(
            log_lines(s).push((e.level, e.message@, e.target)),
        ),
{
    let t = s.push(e);
    assert(log_lines(t) == log_lines(s).push((e.level, e.message@, e.target)));
    if t.len() > crate::editor_log::LOG_CAPACITY {
        assert(log_lines(keep_newest(t)) == log_lines(t).subrange(
            t.len() - crate::editor_log::LOG_CAPACITY,
            t.len() as int,
        ));
    }
}

/// The newest `n` items of `s` (all of them when there are fewer).
pub open spec fn newest_of<T>(s: Seq<T>, n: int) -> Seq<T> {
    if s.len() > n {
        s.subrange(s.len() - n, s.len() as int)
    } else {
        s
    }
}

proof fn lemma_newest_of_push<T>(s: Seq<T>, e: T, n: int)
    requires
        n >= 0,
    ensures
        newest_of(s.push(e), n + 1) == newest_of(s, n).push(e),
{
    if s.len() > n {
        assert(newest_of(s.push(e), n + 1) =~= newest_of(s, n).push(e));
    }
}

proof fn lemma_newest_of_newest<T>(s: Seq<T>, m: int, n: int)
    requires
        0 <= n <= m,
    ensures
        newest_of(newest_of(s, m), n) == newest_of(s, n),
{
    if s.len() > n {
        assert(newest_of(newest_of(s, m), n) =~= newest_of(s, n));
    }
}

/// What the editor is to do after the console ran a command.
#[derive(Debug, Clone, Copy, PartialEq, Eq, Structural)]
pub enum ConsoleOutcome {
    /// No command was entered.
    Nothing,
    /// The command was answered in the log; nothing more to do.
    Done,
    /// `scan`: re-scan the asset folder.
    RescanAssets,
    /// `save`: save the current scene.
    SaveScene,
}

/// The outcome of running `cmd` (already trimmed).
pub open spec fn console_outcome(cmd: Seq<char>) -> ConsoleOutcome {
    if cmd.len() == 0 {
        ConsoleOutcome::Nothing
    } else if cmd == "scan"@ {
        ConsoleOutcome::RescanAssets
    } else if cmd == "save"@ {
        ConsoleOutcome::SaveScene
    } else {
        ConsoleOutcome::Done
    }
}

/// Persistent state of the console panel: level filters and the command being typed.
#[derive(Debug)]
pub struct ConsoleState {
    /// Show TRACE-level messages?
    pub show_trace: bool,
    /// Show INFO-level messages?
    pub show_info: bool,
    /// Show WARN-level messages?
    pub show_warn: bool,
    /// Show ERROR-level messages?
    pub show_error: bool,
    /// Current command input text.
    pub command: String,
}

impl Default for ConsoleState {
    fn default() -> (r: Self)
        ensures
            !r.show_trace,
            r.show_info,
            r.show_warn,
            r.show_error,
            r.command@ == Seq::<char>::empty(),
    {
        ConsoleState {
            show_trace: false,
            show_info: true,
            show_warn: true,
            show_error: true,
            command: String::new(),
        }
    }
}

impl ConsoleState {
    /// Whether the console shows lines of `level` under the current filters.
    pub fn shows(&self, level: LogLevel) -> (r: bool)
        ensures
            r == match level {
                LogLevel::Trace => self.show_trace,
                LogLevel::Info => self.show_info,
                LogLevel::Warn => self.show_warn,
                LogLevel::Error => self.show_error,
            },
    {
        match level {
            LogLevel::Trace => self.show_trace,
            LogLevel::Info => self.show_info,
            LogLevel::Warn => self.show_warn,
            LogLevel::Error => self.show_error,
        }
    }

    /// Run the typed command (Enter pressed): a command that is empty once trimmed does
    /// nothing; otherwise it is echoed to the log and answered, and the input is
    /// cleared. Returns what the editor is to do next: re-scan the assets for `scan`,
    /// save the scene for `save`.
    pub fn run_command(&mut self, log: &mut EditorLog, version: &str) -> (r: ConsoleOutcome)
        ensures
            r == console_outcome(trimmed(old(self).command@)),
            ({
                let cmd = trimmed(old(self).command@);
                if cmd.len() == 0 {
                    &&& final(self).command == old(self).command
                    &&& final(log)@ == old(log)@
                } else {
                    &&& final(self).command@ == Seq::<char>::empty()
                    &&& log_lines(final(log)@) == lines_after_command(
                        log_lines(old(log)@),
                        cmd,
                        version@,
                    )
                    &&& cmd != "clear"@ ==> {
                        &&& final(log)@.len() >= 2
                        &&& final(log)@.subrange(0, final(log)@.len() - 2) == newest_of(
                            old(log)@,
                            LOG_CAPACITY - 2,
                        )
                    }
                }
            }),
            final(self).show_trace == old(self).show_trace,
            final(self).show_info == old(self).show_info,
            final(self).show_warn == old(self).show_warn,
            final(self).show_error == old(self).show_error,
    {
        let cmd = trim(self.command.as_str());
        if cmd.as_str().is_empty() {
            proof {
                assert(cmd@.len() == 0);
            }
            return ConsoleOutcome::Nothing;
        }
        proof {
            assert(cmd@.len() > 0);
        }
        let ghost lines0 = log_lines(log@);
        let ghost log0 = log@;
        log.push(LogLevel::Info, joined("> ", cmd.as_str()));
        proof {
            reveal_strlit("> ");
            lemma_lines_of_push(log0, log@.last());
        }
        let ghost log1 = log@;
        let c = cmd.as_str();
        let outcome = if same_text(c, "scan") {
            ConsoleOutcome::RescanAssets
        } else if same_text(c, "save") {
            ConsoleOutcome::SaveScene
        } else {
            ConsoleOutcome::Done
        };
        if same_text(c, "clear") {
            log.clear();
        } else {
            let (level, reply) = if same_text(c, "help") {
                (LogLevel::Info, String::from_str("Available commands: help, clear, version, scan, save"))
            } else if same_text(c, "version") {
                (LogLevel::Info, joined("Bevy Editor v", version))
            } else if same_text(c, "scan") {
                (LogLevel::Info, String::from_str("Re-scanning assets..."))
            } else if same_text(c, "save") {
                (LogLevel::Info, String::from_str("Saving scene..."))
            } else {
                (LogLevel::Warn, joined("Unknown command: ", c))
            };
            proof {
                assert((level, reply@) == console_reply(cmd@, version@));
            }
            log.push(level, reply);
            proof {
                lemma_lines_of_push(log1, log@.last());
                let e1 = log1.last();
                let e2 = log@.last();
                let cap = LOG_CAPACITY as int;
                assert(log1 == newest_of(log0.push(e1), cap));
                lemma_newest_of_push(log0, e1, cap - 1);
                assert(log@ == newest_of(log1.push(e2), cap));
                lemma_newest_of_push(log1, e2, cap - 1);
                lemma_newest_of_push(newest_of(log0, cap - 1), e1, cap - 2);
                lemma_newest_of_newest(log0, cap - 1, cap - 2);
                assert(log@ == newest_of(log0, cap - 2).push(e1).push(e2));
                assert(log@.subrange(0, log@.len() - 2) =~= newest_of(log0, cap - 2));
            }
        }
        proof {
            reveal_strlit("clear");
            reveal_strlit("scan");
            reveal_strlit("save");
        }
        self.command = String::new();
        outcome
    }
}

/// Persistent state of the hierarchy panel: filter text and the rename in progress.
#[derive(Debug)]
pub struct HierarchyState {
    /// Filter text for the entity list.
    pub filter: String,
    /// The entity being renamed, if any.
    pub renaming: Option<u64>,
    /// The rename text being typed.
    pub rename_buf: String,
}

impl Default for HierarchyState {
    fn default() -> (r: Self)
        ensures
            r.filter@ == Seq::<char>::empty(),
            r.renaming is None,
            r.rename_buf@ == Seq::<char>::empty(),
    {
        HierarchyState { filter: String::new(), renaming: None, rename_buf: String::new() }
    }
}

impl HierarchyState {
    /// Whether an entity named `name` is listed under the current filter (an empty
    /// filter lists everything; otherwise the name must contain the filter, both
    /// lower-cased).
    pub fn shows_name(&self, name: &str) -> (r: bool)
        ensures
            r == passes_filter(name@, self.filter@),
    {
        matches_filter(name, self.filter.as_str())
    }

    /// Start renaming `entity`, whose current name is `current_name`.
    pub fn begin_rename(&mut self, entity: u64, current_name: String)
        ensures
            final(self).renaming == Some(entity),
            final(self).rename_buf == current_name,
            final(self).filter == old(self).filter,
    {
        self.renaming = Some(entity);
        self.rename_buf = current_name;
    }

    /// Finish renaming `entity` (the text field lost focus): a name that is not empty
    /// once trimmed becomes a rename request with the trimmed name; the rename ends
    /// either way.
    pub fn finish_rename(&mut self, entity: u64) -> (r: Option<RenameEntityRequest>)
        ensures
            final(self).renaming is None,
            final(self).rename_buf == old(self).rename_buf,
            final(self).filter == old(self).filter,
            match r {
                Some(req) => req.entity == entity && req.new_name@ == trimmed(
                    old(self).rename_buf@,
                ) && trimmed(old(self).rename_buf@).len() > 0,
                None => trimmed(old(self).rename_buf@).len() == 0,
            },
    {
        let name = trim(self.rename_buf.as_str());
        self.renaming = None;
        if name.as_str().is_empty() {
            proof {
                assert(name@.len() == 0);
            }
            None
        } else {
            proof {
                assert(name@.len() > 0);
            }
            Some(RenameEntityRequest { entity, new_name: name })
        }
    }
}

/// The transform tool of the viewport.
#[derive(Debug, Clone, Copy, PartialEq, Eq, Structural)]
pub enum TransformMode {
    /// Select entities (no gizmo).
    Select,
    /// Move entities.
    Move,
    /// Rotate entities.
    Rotate,
    /// Scale entities.
    Scale,
}

impl Default for TransformMode {
    fn default() -> (r: Self)
        ensures
            r == TransformMode::Select,
    {
        TransformMode::Select
    }
}

/// Persistent state of the viewport panel.
#[derive(Debug, Clone, Copy, PartialEq, Eq, Structural)]
pub struct ViewportState {
    /// Current transform tool.
    pub transform_mode: TransformMode,
    /// Whether the Add Component dialog is open.
    pub add_component_open: bool,
}

impl Default for ViewportState {
    fn default() -> (r: Self)
        ensures
            r.transform_mode == TransformMode::Select,
            !r.add_component_open,
    {
        ViewportState { transform_mode: TransformMode::Select, add_component_open: false }
    }
}

/// Persistent state of the asset browser panel.
#[derive(Debug)]
pub struct AssetBrowserState {
    /// Filter text for the asset list.
    pub filter: String,
}

impl AssetBrowserState {
    /// Whether an asset with path `relative_path` is listed under the current filter
    /// (an empty filter lists everything; otherwise the path must contain the filter,
    /// both lower-cased).
    pub fn shows_path(&self, relative_path: &str) -> (r: bool)
        ensures
            r == passes_filter(relative_path@, self.filter@),
    {
        matches_filter(relative_path, self.filter.as_str())
    }
}

impl Default for AssetBrowserState {
    fn default() -> (r: Self)
        ensures
            r.filter@ == Seq::<char>::empty(),
    {
        AssetBrowserState { filter: String::new() }
    }
}

/// Editor actions queued by the UI, to be turned into scene changes by the systems.
#[derive(Debug)]
pub struct PendingActions {
    /// Spawn requests.
    pub spawns: Vec<SpawnRequest>,
    /// Delete requests.
    pub deletes: Vec<DeleteEntityRequest>,
    /// Rename requests.
    pub renames: Vec<RenameEntityRequest>,
    /// Duplicate requests.
    pub duplicates: Vec<DuplicateEntityRequest>,
    /// Hide / show requests.
    pub visibility: Vec<SetHiddenRequest>,
    /// Lock / unlock requests.
    pub locks: Vec<SetLockedRequest>,
    /// Undo the last command?
    pub undo: bool,
    /// Redo the last undone command?
    pub redo: bool,
    /// Advance the paused simulation by one step?
    pub step: bool,
    /// Save the scene?
    pub save: bool,
    /// Scene file to load, if any.
    pub load: Option<String>,
    /// Open the Add Component dialog?
    pub open_add_component: bool,
    /// Open the script editor?
    pub open_script_editor: bool,
}

impl Default for PendingActions {
    fn default() -> (r: Self)
        ensures
            r.spawns@ == Seq::<SpawnRequest>::empty(),
            r.deletes@ == Seq::<DeleteEntityRequest>::empty(),
            r.renames@ == Seq::<RenameEntityRequest>::empty(),
            r.duplicates@ == Seq::<DuplicateEntityRequest>::empty(),
            r.visibility@ == Seq::<SetHiddenRequest>::empty(),
            r.locks@ == Seq::<SetLockedRequest>::empty(),
            !r.undo,
            !r.redo,
            !r.step,
            !r.save,
            r.load is None,
            !r.open_add_component,
            !r.open_script_editor,
    {
        PendingActions {
            spawns: Vec::new(),
            deletes: Vec::new(),
            renames: Vec::new(),
            duplicates: Vec::new(),
            visibility: Vec::new(),
            locks: Vec::new(),
            undo: false,
            redo: false,
            step: false,
            save: false,
            load: None,
            open_add_component: false,
            open_script_editor: false,
        }
    }
}

} // verus!
