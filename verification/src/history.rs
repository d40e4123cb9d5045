//! Undo / redo history.
//!
//! A command pattern: each [`Command`] carries a description and an action that
//! can be applied forward and backward on some world. The [`CommandHistory`]
//! stores commands in two stacks (undo / redo).

use vstd::prelude::*;
use crate::text::joined;

verus! {

/// An action that can be applied to a world and taken back again. The users of the
/// history supply the actions; what the history states of the world rests on their
/// `apply` and `revert` meeting `applied` and `reverted`.
pub trait Reversible<W> {
    /// `after` is the world that applying the action forward to `before` gives.
    spec fn applied(&self, before: W, after: W) -> bool;

    /// `after` is the world that applying the action backward to `before` gives.
    spec fn reverted(&self, before: W, after: W) -> bool;

    /// Apply the action forward.
    fn apply(&self, world: &mut W)
        ensures
            self.applied(*old(world), *final(world)),
    ;

    /// Apply the action backward (undo).
    fn revert(&self, world: &mut W)
        ensures
            self.reverted(*old(world), *final(world)),
    ;
}

/// A single undoable / redoable action.
pub struct Command<A> {
    /// Human-readable description shown in the Edit -> Undo / Redo menus.
    pub description: String,
    /// The action itself.
    pub action: A,
}

impl<A: Default> Default for Command<A> {
    fn default() -> (r: Self)
        ensures
            r.description@ == "Untitled Command"@,
    {
        Command { description: String::from_str("Untitled Command"), action: A::default() }
    }
}

/// The number of undo steps kept for a `max_history` setting: at least one.
pub open spec fn undo_capacity(max_history: usize) -> int {
    if max_history < 1 {
        1
    } else {
        max_history as int
    }
}

/// The undo stack after `command` has been pushed onto `undo`: the oldest entry
/// is dropped when the stack grows beyond its capacity.
pub open spec fn undo_after_push<A>(undo: Seq<Command<A>>, command: Command<A>, max_history: usize) -> Seq<
    Command<A>,
> {
    let s = undo.push(command);
    if s.len() > undo_capacity(max_history) {
        s.drop_first()
    } else {
        s
    }
}

/// The two stacks after one step is moved from the top of `from` to the top of `to`
/// (undo moves from the undo stack to the redo stack, redo the other way).
pub open spec fn moved_top<A>(from: Seq<Command<A>>, to: Seq<Command<A>>) -> (Seq<Command<A>>, Seq<
    Command<A>,
>) {
    if from.len() == 0 {
        (from, to)
    } else {
        (from.drop_last(), to.push(from.last()))
    }
}

/// The number of undo steps a new history keeps.
pub const DEFAULT_MAX_HISTORY: usize = 100;

/// History of [`Command`]s with undo / redo support.
pub struct CommandHistory<A> {
    undo_stack: Vec<Command<A>>,
    redo_stack: Vec<Command<A>>,
    /// Maximum number of undo steps to keep (at least one is always kept).
    pub max_history: usize,
}

impl<A> Default for CommandHistory<A> {
    fn default() -> (r: Self)
        ensures
            r.undos() == Seq::<Command<A>>::empty(),
            r.redos() == Seq::<Command<A>>::empty(),
            r.max_setting() == DEFAULT_MAX_HISTORY,
    {
        CommandHistory {
            undo_stack: Vec::new(),
            redo_stack: Vec::new(),
            max_history: DEFAULT_MAX_HISTORY,
        }
    }
}

impl<A> CommandHistory<A> {
    /// The undo stack, oldest first.
    pub closed spec fn undos(&self) -> Seq<Command<A>> {
        self.undo_stack@
    }

    /// The configured maximum number of undo steps.
    pub closed spec fn max_setting(&self) -> usize {
        self.max_history
    }

    /// The redo stack, oldest first.
    pub closed spec fn redos(&self) -> Seq<Command<A>> {
        self.redo_stack@
    }

    /// Execute a new command, push it onto the undo stack and forget the redo stack.
    pub fn push_and_execute<W>(&mut self, world: &mut W, command: Command<A>)
        where A: Reversible<W>,
        ensures
            final(self).undos() == undo_after_push(old(self).undos(), command, old(self).max_setting()),
            final(self).redos() == Seq::<Command<A>>::empty(),
            final(self).max_setting() == old(self).max_setting(),
            command.action.applied(*old(world), *final(world)),
    {
        command.action.apply(world);
        self.undo_stack.push(command);
        self.redo_stack.clear();
        let cap = if self.max_history < 1 {
            1
        } else {
            self.max_history
        };
        if self.undo_stack.len() > cap {
            self.undo_stack.remove(0);
            proof {
                assert(self.undo_stack@ == old(self).undo_stack@.push(command).drop_first());
            }
        }
    }

    /// Undo the most recent command, if any; returns whether there was one.
    pub fn undo<W>(&mut self, world: &mut W) -> (r: bool)
        where A: Reversible<W>,
        ensures
            r == (old(self).undos().len() > 0),
            (final(self).undos(), final(self).redos()) == moved_top(
                old(self).undos(),
                old(self).redos(),
            ),
            final(self).max_setting() == old(self).max_setting(),
            r ==> old(self).undos().last().action.reverted(*old(world), *final(world)),
            !r ==> *final(world) == *old(world),
    {
        match self.undo_stack.pop() {
            Some(command) => {
                command.action.revert(world);
                self.redo_stack.push(command);
                true
            },
            None => false,
        }
    }

    /// Redo the most recently undone command, if any; returns whether there was one.
    pub fn redo<W>(&mut self, world: &mut W) -> (r: bool)
        where A: Reversible<W>,
        ensures
            r == (old(self).redos().len() > 0),
            (final(self).redos(), final(self).undos()) == moved_top(
                old(self).redos(),
                old(self).undos(),
            ),
            final(self).max_setting() == old(self).max_setting(),
            r ==> old(self).redos().last().action.applied(*old(world), *final(world)),
            !r ==> *final(world) == *old(world),
    {
        match self.redo_stack.pop() {
            Some(command) => {
                command.action.apply(world);
                self.undo_stack.push(command);
                true
            },
            None => false,
        }
    }

    /// Description of the next undo (for menu items), if any.
    pub fn next_undo_description(&self) -> (r: Option<&str>)
        ensures
            match r {
                Some(d) => self.undos().len() > 0 && d@ == self.undos().last().description@,
                None => self.undos().len() == 0,
            },
    {
        let n = self.undo_stack.len();
        if n == 0 {
            None
        } else {
            Some(self.undo_stack[n - 1].description.as_str())
        }
    }

    /// Description of the next redo (for menu items), if any.
    pub fn next_redo_description(&self) -> (r: Option<&str>)
        ensures
            match r {
                Some(d) => self.redos().len() > 0 && d@ == self.redos().last().description@,
                None => self.redos().len() == 0,
            },
    {
        let n = self.redo_stack.len();
        if n == 0 {
            None
        } else {
            Some(self.redo_stack[n - 1].description.as_str())
        }
    }

    /// The label of the Edit -> Undo menu entry.
    pub fn undo_label(&self) -> (r: String)
        ensures
            r@ == (if self.undos().len() > 0 {
                "Undo "@ + self.undos().last().description@ + "\tCtrl+Z"@
            } else {
                "Undo\tCtrl+Z"@
            }),
    {
        match self.next_undo_description() {
            Some(d) => {
                let s = joined("Undo ", d);
                joined(s.as_str(), "\tCtrl+Z")
            },
            None => String::from_str("Undo\tCtrl+Z"),
        }
    }

    /// The label of the Edit -> Redo menu entry.
    pub fn redo_label(&self) -> (r: String)
        ensures
            r@ == (if self.redos().len() > 0 {
                "Redo "@ + self.redos().last().description@ + "\tCtrl+Y"@
            } else {
                "Redo\tCtrl+Y"@
            }),
    {
        match self.next_redo_description() {
            Some(d) => {
                let s = joined("Redo ", d);
                joined(s.as_str(), "\tCtrl+Y")
            },
            None => String::from_str("Redo\tCtrl+Y"),
        }
    }

    /// Set the maximum number of undo steps. The stacks are left as they are; a
    /// smaller limit takes effect at the next push.
    pub fn set_max_history(&mut self, max_history: usize)
        ensures
            final(self).max_setting() == max_history,
            final(self).undos() == old(self).undos(),
            final(self).redos() == old(self).redos(),
    {
        self.max_history = max_history;
    }

    /// Clear all history.
    pub fn clear(&mut self)
        ensures
            final(self).undos() == Seq::<Command<A>>::empty(),
            final(self).redos() == Seq::<Command<A>>::empty(),
            final(self).max_setting() == old(self).max_setting(),
    {
        self.undo_stack.clear();
        self.redo_stack.clear();
    }
}

/// Undoing a step and then redoing it gives back both stacks unchanged, and the
/// command that the redo applies is the one that the undo reverted.
pub proof fn lemma_undo_then_redo<A>(undo: Seq<Command<A>>, redo: Seq<Command<A>>)
    requires
        undo.len() > 0,
    ensures
        ({
            let (u1, r1) = moved_top(undo, redo);
            let (r2, u2) = moved_top(r1, u1);
            &&& r1.len() > 0
            &&& r1.last() == undo.last()
            &&& u2 == undo && r2 == redo
        }),
{
    let (u1, r1) = moved_top(undo, redo);
    assert(u1.push(r1.last()) == undo);
    assert(r1.drop_last() == redo);
}

/// Redoing a step and then undoing it gives back both stacks unchanged, and the
/// command that the undo reverts is the one that the redo applied.
pub proof fn lemma_redo_then_undo<A>(undo: Seq<Command<A>>, redo: Seq<Command<A>>)
    requires
        redo.len() > 0,
    ensures
        ({
            let (r1, u1) = moved_top(redo, undo);
            let (u2, r2) = moved_top(u1, r1);
            &&& u1.len() > 0
            &&& u1.last() == redo.last()
            &&& u2 == undo && r2 == redo
        }),
{
    let (r1, u1) = moved_top(redo, undo);
    assert(r1.push(u1.last()) == redo);
    assert(u1.drop_last() == undo);
}

/// The undo stack never grows beyond its capacity through pushes: a stack within
/// capacity stays within capacity, and the pushed command is on top.
pub proof fn lemma_push_within_capacity<A>(
    undo: Seq<Command<A>>,
    command: Command<A>,
    max_history: usize,
)
    requires
        undo.len() <= undo_capacity(max_history),
    ensures
        undo_after_push(undo, command, max_history).len() <= undo_capacity(max_history),
        undo_after_push(undo, command, max_history).last() == command,
{
}

} // verus!
