use bevy_editor::history::{Command, CommandHistory, Reversible, DEFAULT_MAX_HISTORY};

/// Adds `amount` to the world going forward, subtracts it going back.
#[derive(Default)]
struct Add(i64);

impl Reversible<i64> for Add {
    fn applied(&self, before: i64, after: i64) -> bool {
        after == before + self.0
    }
    fn reverted(&self, before: i64, after: i64) -> bool {
        after == before - self.0
    }
    fn apply(&self, world: &mut i64) {
        *world += self.0;
    }
    fn revert(&self, world: &mut i64) {
        *world -= self.0;
    }
}

fn cmd(description: &str, amount: i64) -> Command<Add> {
    Command { description: description.to_string(), action: Add(amount) }
}

#[test]
fn push_executes_and_undo_redo_round_trip() {
    let mut world: i64 = 0;
    let mut h: CommandHistory<Add> = CommandHistory::default();
    h.max_history = 100;
    h.push_and_execute(&mut world, cmd("add one", 1));
    h.push_and_execute(&mut world, cmd("add ten", 10));
    assert_eq!(world, 11);
    assert_eq!(h.next_undo_description(), Some("add ten"));
    assert_eq!(h.next_redo_description(), None);
    assert!(h.undo(&mut world));
    assert_eq!(world, 1);
    assert_eq!(h.next_undo_description(), Some("add one"));
    assert_eq!(h.next_redo_description(), Some("add ten"));
    assert!(h.redo(&mut world));
    assert_eq!(world, 11);
    assert_eq!(h.next_undo_description(), Some("add ten"));
    assert_eq!(h.next_redo_description(), None);
}

#[test]
fn undo_and_redo_on_empty_stacks() {
    let mut world: i64 = 5;
    let mut h: CommandHistory<Add> = CommandHistory::default();
    assert!(!h.undo(&mut world));
    assert!(!h.redo(&mut world));
    assert_eq!(world, 5);
    assert_eq!(h.next_undo_description(), None);
}

#[test]
fn push_clears_redo() {
    let mut world: i64 = 0;
    let mut h: CommandHistory<Add> = CommandHistory::default();
    h.max_history = 10;
    h.push_and_execute(&mut world, cmd("a", 1));
    h.undo(&mut world);
    assert_eq!(h.next_redo_description(), Some("a"));
    h.push_and_execute(&mut world, cmd("b", 2));
    assert_eq!(h.next_redo_description(), None);
    assert_eq!(world, 2);
}

#[test]
fn history_is_capped() {
    let mut world: i64 = 0;
    let mut h: CommandHistory<Add> = CommandHistory::default();
    h.set_max_history(2);
    assert_eq!(h.max_history, 2);
    h.push_and_execute(&mut world, cmd("a", 1));
    h.push_and_execute(&mut world, cmd("b", 2));
    h.push_and_execute(&mut world, cmd("c", 4));
    assert_eq!(world, 7);
    assert!(h.undo(&mut world));
    assert!(h.undo(&mut world));
    assert!(!h.undo(&mut world));
    assert_eq!(world, 1);
}

#[test]
fn default_history_keeps_a_hundred_steps() {
    let mut world: i64 = 0;
    let mut h: CommandHistory<Add> = CommandHistory::default();
    assert_eq!(h.max_history, DEFAULT_MAX_HISTORY);
    assert_eq!(h.max_history, 100);
    for i in 0..101 {
        h.push_and_execute(&mut world, cmd(&format!("step {i}"), 1));
    }
    assert_eq!(world, 101);
    for _ in 0..100 {
        assert!(h.undo(&mut world));
    }
    assert!(!h.undo(&mut world));
    assert_eq!(world, 1);
    assert_eq!(h.next_redo_description(), Some("step 1"));
}

#[test]
fn undo_runs_revert_and_redo_runs_apply() {
    let mut world: i64 = 100;
    let mut h: CommandHistory<Add> = CommandHistory::default();
    h.push_and_execute(&mut world, cmd("add seven", 7));
    assert_eq!(world, 107);
    assert!(Add(7).applied(100, world));
    assert!(h.undo(&mut world));
    assert_eq!(world, 100);
    assert!(Add(7).reverted(107, world));
    assert!(!h.undo(&mut world));
    assert_eq!(world, 100);
    assert!(h.redo(&mut world));
    assert_eq!(world, 107);
    assert!(!h.redo(&mut world));
    assert_eq!(world, 107);
}

#[test]
fn menu_labels() {
    let mut world: i64 = 0;
    let mut h: CommandHistory<Add> = CommandHistory::default();
    assert_eq!(h.undo_label(), "Undo\tCtrl+Z");
    assert_eq!(h.redo_label(), "Redo\tCtrl+Y");
    h.push_and_execute(&mut world, cmd("Move Cube", 1));
    assert_eq!(h.undo_label(), "Undo Move Cube\tCtrl+Z");
    h.undo(&mut world);
    assert_eq!(h.undo_label(), "Undo\tCtrl+Z");
    assert_eq!(h.redo_label(), "Redo Move Cube\tCtrl+Y");
}

#[test]
fn clear_forgets_everything() {
    let mut world: i64 = 0;
    let mut h: CommandHistory<Add> = CommandHistory::default();
    h.set_max_history(5);
    h.push_and_execute(&mut world, cmd("a", 1));
    h.push_and_execute(&mut world, cmd("b", 1));
    h.undo(&mut world);
    h.clear();
    assert_eq!(h.next_undo_description(), None);
    assert_eq!(h.next_redo_description(), None);
}

#[test]
fn default_command_is_untitled() {
    let c: Command<Add> = Command::default();
    assert_eq!(c.description, "Untitled Command");
}
