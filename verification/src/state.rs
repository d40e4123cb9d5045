//! Editor play-mode state machine and the entity selection.

use vstd::prelude::*;
use crate::text::{joined, decimal, decimal_string};

verus! {

/// Top-level editor lifecycle state.
#[derive(Debug, Clone, Copy, PartialEq, Eq, Hash, Structural)]
pub enum EditorState {
    /// The editor is still loading its initial assets.
    Loading,
    /// The editor is open and the user is editing a scene.
    Editing,
    /// The user pressed Play: the game's systems are running.
    Playing,
    /// The user pressed Pause: the game is paused, the editor UI is live.
    Paused,
}

impl Default for EditorState {
    fn default() -> (r: Self)
        ensures
            r == EditorState::Loading,
    {
        EditorState::Loading
    }
}

impl EditorState {
    /// True in play mode (Playing or Paused).
    pub open spec fn spec_is_play_mode(self) -> bool {
        self is Playing || self is Paused
    }

    /// True if the editor is currently in play mode (Playing or Paused).
    #[verifier::when_used_as_spec(spec_is_play_mode)]
    pub fn is_play_mode(self) -> (r: bool)
        ensures
            r == (self is Playing || self is Paused),
    {
        matches!(self, EditorState::Playing | EditorState::Paused)
    }

    /// The name of the state, as the status bar shows it.
    pub fn label(self) -> (r: &'static str)
        ensures
            r@ == match self {
                EditorState::Loading => "Loading"@,
                EditorState::Editing => "Editing"@,
                EditorState::Playing => "Playing"@,
                EditorState::Paused => "Paused"@,
            },
    {
        match self {
            EditorState::Loading => "Loading",
            EditorState::Editing => "Editing",
            EditorState::Playing => "Playing",
            EditorState::Paused => "Paused",
        }
    }

    /// True if the editor is currently in edit mode.
    pub fn is_edit_mode(self) -> (r: bool)
        ensures
            r == (self is Editing),
    {
        matches!(self, EditorState::Editing)
    }
}

/// A user action that may request a change of the editor state.
#[derive(Debug, Clone, Copy, PartialEq, Eq, Structural)]
pub enum StateControl {
    /// The F5 shortcut: toggle between editing and playing.
    TogglePlay,
    /// The F6 shortcut: toggle between playing and paused.
    TogglePause,
    /// The toolbar Play / Resume button.
    PlayButton,
    /// The toolbar Pause button.
    PauseButton,
    /// The toolbar Stop button.
    StopButton,
    /// The Build / Run menu entry.
    RunMenu,
}

/// The state that `control` asks for in state `s`, or `None` when it asks for no change.
pub open spec fn requested_state(s: EditorState, control: StateControl) -> Option<EditorState> {
    match control {
        StateControl::TogglePlay => match s {
            EditorState::Editing => Some(EditorState::Playing),
            EditorState::Playing | EditorState::Paused => Some(EditorState::Editing),
            EditorState::Loading => None,
        },
        StateControl::TogglePause => match s {
            EditorState::Playing => Some(EditorState::Paused),
            EditorState::Paused => Some(EditorState::Playing),
            _ => None,
        },
        StateControl::PlayButton => if s is Editing || s is Paused {
            Some(EditorState::Playing)
        } else {
            None
        },
        StateControl::PauseButton => if s is Playing {
            Some(EditorState::Paused)
        } else {
            None
        },
        StateControl::StopButton => if s is Editing {
            None
        } else {
            Some(EditorState::Editing)
        },
        StateControl::RunMenu => Some(EditorState::Playing),
    }
}

/// The state the editor is in after `control` has been handled in state `s`.
pub open spec fn state_after(s: EditorState, control: StateControl) -> EditorState {
    match requested_state(s, control) {
        Some(t) => t,
        None => s,
    }
}

impl EditorState {
    /// The state that a user action asks for, or `None` when it asks for no change.
    pub fn on_control(self, control: StateControl) -> (r: Option<EditorState>)
        ensures
            r == requested_state(self, control),
    {
        match control {
            StateControl::TogglePlay => match self {
                EditorState::Editing => Some(EditorState::Playing),
                EditorState::Playing | EditorState::Paused => Some(EditorState::Editing),
                EditorState::Loading => None,
            },
            StateControl::TogglePause => match self {
                EditorState::Playing => Some(EditorState::Paused),
                EditorState::Paused => Some(EditorState::Playing),
                _ => None,
            },
            StateControl::PlayButton => {
                if matches!(self, EditorState::Editing | EditorState::Paused) {
                    Some(EditorState::Playing)
                } else {
                    None
                }
            },
            StateControl::PauseButton => {
                if matches!(self, EditorState::Playing) {
                    Some(EditorState::Paused)
                } else {
                    None
                }
            },
            StateControl::StopButton => {
                if matches!(self, EditorState::Editing) {
                    None
                } else {
                    Some(EditorState::Editing)
                }
            },
            StateControl::RunMenu => Some(EditorState::Playing),
        }
    }
}

/// Pausing twice from a running game resumes it, and resuming twice from a
/// paused game pauses it again.
pub proof fn lemma_toggle_pause_twice(s: EditorState)
    requires
        s.spec_is_play_mode(),
    ensures
        state_after(state_after(s, StateControl::TogglePause), StateControl::TogglePause) == s,
{
}

/// Pressing F5 twice while editing starts the game and then returns to editing.
pub proof fn lemma_toggle_play_twice_from_editing()
    ensures
        state_after(
            state_after(EditorState::Editing, StateControl::TogglePlay),
            StateControl::TogglePlay,
        ) == EditorState::Editing,
{
}

/// After Stop the editor is always in edit mode, and after Play or Run it is always playing
/// when it was not loading.
pub proof fn lemma_stop_and_play_targets(s: EditorState)
    ensures
        state_after(s, StateControl::StopButton) == EditorState::Editing,
        state_after(s, StateControl::RunMenu) == EditorState::Playing,
        !(s is Loading) && !(s is Playing) ==> state_after(s, StateControl::PlayButton)
            == EditorState::Playing,
{
}

/// Each control acts only in the states it is meant for: Pause only pauses a running
/// game, Play / Resume only starts from editing or resumes from pause, F6 only moves
/// between playing and paused, F5 does nothing while loading, and Stop acts in every
/// state but editing. No control leads back to loading, and every control except
/// the Run menu entry changes the state whenever it acts.
pub proof fn lemma_controls_act_where_meant(s: EditorState, c: StateControl)
    ensures
        requested_state(s, StateControl::PauseButton) is Some ==> s == EditorState::Playing,
        s == EditorState::Playing ==> requested_state(s, StateControl::PauseButton) == Some(
            EditorState::Paused,
        ),
        requested_state(s, StateControl::PlayButton) is Some <==> (s == EditorState::Editing || s
            == EditorState::Paused),
        requested_state(s, StateControl::PlayButton) is Some ==> requested_state(
            s,
            StateControl::PlayButton,
        ) == Some(EditorState::Playing),
        requested_state(s, StateControl::TogglePause) is Some <==> (s == EditorState::Playing || s
            == EditorState::Paused),
        requested_state(s, StateControl::TogglePlay) is None <==> s == EditorState::Loading,
        s == EditorState::Editing ==> requested_state(s, StateControl::TogglePlay) == Some(
            EditorState::Playing,
        ),
        (s == EditorState::Playing || s == EditorState::Paused) ==> requested_state(
            s,
            StateControl::TogglePlay,
        ) == Some(EditorState::Editing),
        requested_state(s, StateControl::StopButton) is Some <==> s != EditorState::Editing,
        requested_state(s, c) != Some(EditorState::Loading),
        c != StateControl::RunMenu && requested_state(s, c) is Some ==> requested_state(s, c)
            != Some(s),
{
}

/// Filtering a sequence without duplicates leaves a sequence without duplicates.
proof fn lemma_filter_no_duplicates(s: Seq<u64>, pred: spec_fn(u64) -> bool)
    requires
        s.no_duplicates(),
    ensures
        s.filter(pred).no_duplicates(),
    decreases s.len(),
{
    reveal(Seq::filter);
    if s.len() > 0 {
        let rest = s.drop_last();
        assert(rest.no_duplicates());
        lemma_filter_no_duplicates(rest, pred);
        if pred(s.last()) {
            if rest.filter(pred).contains(s.last()) {
                rest.lemma_filter_contains_rev(pred, s.last());
                let k = choose|k: int| 0 <= k < rest.len() && rest[k] == s.last();
                assert(s[k] == s[s.len() - 1]);
            }
        }
    }
}

/// Removing one position of a sequence without duplicates removes that element
/// entirely and leaves no duplicates.
proof fn lemma_remove_no_duplicates(s: Seq<u64>, i: int)
    requires
        s.no_duplicates(),
        0 <= i < s.len(),
    ensures
        s.remove(i).no_duplicates(),
        !s.remove(i).contains(s[i]),
        forall|x: u64| x != s[i] ==> (s.remove(i).contains(x) <==> s.contains(x)),
{
    let r = s.remove(i);
    assert forall|a: int, b: int| 0 <= a < r.len() && 0 <= b < r.len() && a != b implies r[a]
        != r[b] by {
        let a2 = if a < i { a } else { a + 1 };
        let b2 = if b < i { b } else { b + 1 };
        assert(r[a] == s[a2] && r[b] == s[b2]);
    }
    assert forall|x: u64| x != s[i] && s.contains(x) implies r.contains(x) by {
        let k = choose|k: int| 0 <= k < s.len() && s[k] == x;
        if k < i {
            assert(r[k] == x);
        } else {
            assert(r[k - 1] == x);
        }
    }
    assert forall|x: u64| r.contains(x) implies s.contains(x) && x != s[i] by {
        let k = choose|k: int| 0 <= k < r.len() && r[k] == x;
        if k < i {
            assert(s[k] == x);
        } else {
            assert(s[k + 1] == x);
        }
    }
}

/// The index of the first occurrence of `entity` in `v`, if any.
fn position_of(v: &Vec<u64>, entity: u64) -> (r: Option<usize>)
    ensures
        r matches Some(i) ==> v@.index_of_first(entity) == Some(i as int),
        r is None ==> !v@.contains(entity),
{
    proof {
        v@.index_of_first_ensures(entity);
    }
    let mut i: usize = 0;
    while i < v.len()
        invariant
            i <= v@.len(),
            forall|j: int| 0 <= j < i ==> v@[j] != entity,
        decreases v@.len() - i,
    {
        if v[i] == entity {
            proof {
                v@.index_of_first_ensures(entity);
                match v@.index_of_first(entity) {
                    Some(k) => {
                        assert(k == i);
                    },
                    None => {
                        assert(v@.contains(entity));
                    },
                }
            }
            return Some(i);
        }
        i = i + 1;
    }
    None
}

/// Toggling an entity that is not selected and then toggling it again gives back the
/// selected entities as they were.
pub proof fn lemma_toggle_twice(entities: Seq<u64>, entity: u64)
    requires
        !entities.contains(entity),
    ensures
        entities.push(entity).index_of_first(entity) == Some(entities.len() as int),
        entities.push(entity).remove(entities.len() as int) == entities,
{
    let s = entities.push(entity);
    s.index_of_first_ensures(entity);
    assert(s[entities.len() as int] == entity);
    match s.index_of_first(entity) {
        Some(k) => {
            if k < entities.len() {
                assert(entities[k] == entity);
            }
        },
        None => {},
    }
    assert(s.remove(entities.len() as int) =~= entities);
}

/// Edit mode and play mode exclude each other.
pub proof fn lemma_modes_exclusive(s: EditorState)
    ensures
        !(s.spec_is_play_mode() && s is Editing),
{
}

/// The entity selection: the primary entity (drives the inspector) and the full
/// multi-selection. Entities are identified by their 64-bit id.
#[derive(Debug, Clone)]
pub struct Selection {
    /// The primary selected entity (drives the inspector).
    pub primary: Option<u64>,
    /// The full set of selected entities (multi-select), in selection order.
    pub entities: Vec<u64>,
}

impl Default for Selection {
    fn default() -> (r: Self)
        ensures
            r.primary is None,
            r.entities@ == Seq::<u64>::empty(),
    {
        Selection { primary: None, entities: Vec::new() }
    }
}

impl Selection {
    /// Well-formedness kept by every operation: no entity is selected twice, and the
    /// primary entity, when there is one, is the most recently selected one.
    pub open spec fn wf(&self) -> bool {
        &&& self.entities@.no_duplicates()
        &&& (self.primary matches Some(p) ==> self.entities@.len() > 0 && self.entities@.last()
            == p)
    }

    /// Replace the current selection with a single entity.
    pub fn set(&mut self, entity: u64)
        ensures
            final(self).primary == Some(entity),
            final(self).entities@ == seq![entity],
            final(self).wf(),
    {
        self.primary = Some(entity);
        self.entities = vec![entity];
    }

    /// Toggle an entity in the current selection (multi-select).
    pub fn toggle(&mut self, entity: u64)
        ensures
            old(self).entities@.index_of_first(entity) matches Some(i) ==> {
                &&& final(self).entities@ == old(self).entities@.remove(i)
                &&& final(self).primary == (if final(self).entities@.len() == 0 {
                    None
                } else {
                    Some(final(self).entities@.last())
                })
            },
            !old(self).entities@.contains(entity) ==> {
                &&& final(self).entities@ == old(self).entities@.push(entity)
                &&& final(self).primary == Some(entity)
            },
            old(self).wf() ==> final(self).wf(),
            old(self).wf() ==> (final(self).entities@.contains(entity)
                <==> !old(self).entities@.contains(entity)),
    {
        proof {
            self.entities@.index_of_first_ensures(entity);
        }
        match position_of(&self.entities, entity) {
            Some(idx) => {
                proof {
                    if old(self).wf() {
                        lemma_remove_no_duplicates(self.entities@, idx as int);
                    }
                }
                self.entities.remove(idx);
                let len = self.entities.len();
                self.primary = if len == 0 {
                    None
                } else {
                    Some(self.entities[len - 1])
                };
            },
            None => {
                self.entities.push(entity);
                self.primary = Some(entity);
                proof {
                    assert(self.entities@[self.entities@.len() - 1] == entity);
                    if old(self).wf() {
                        assert(self.entities@.no_duplicates());
                    }
                }
            },
        }
    }

    /// Clear the selection.
    pub fn clear(&mut self)
        ensures
            final(self).primary is None,
            final(self).entities@ == Seq::<u64>::empty(),
            final(self).wf(),
    {
        self.primary = None;
        self.entities.clear();
    }

    /// True if the given entity is in the selection.
    pub fn contains(&self, entity: u64) -> (r: bool)
        ensures
            r == self.entities@.contains(entity),
    {
        let mut i: usize = 0;
        while i < self.entities.len()
            invariant
                i <= self.entities@.len(),
                forall|j: int| 0 <= j < i ==> self.entities@[j] != entity,
            decreases self.entities@.len() - i,
        {
            if self.entities[i] == entity {
                return true;
            }
            i = i + 1;
        }
        false
    }

    /// True if anything is selected.
    pub fn is_empty(&self) -> (r: bool)
        ensures
            r == (self.entities@.len() > 0),
    {
        !self.entities.is_empty()
    }

    /// The viewport's one-line description of the selection.
    pub fn summary(&self) -> (r: String)
        ensures
            r@ == (if self.entities@.len() == 0 {
                "No entity selected"@
            } else if self.entities@.len() == 1 {
                "1 entity selected"@
            } else {
                decimal(self.entities@.len()) + " entities selected"@
            }),
    {
        let n = self.entities.len();
        if n == 0 {
            String::from_str("No entity selected")
        } else if n == 1 {
            String::from_str("1 entity selected")
        } else {
            let count = decimal_string(n);
            joined(count.as_str(), " entities selected")
        }
    }

    /// Drop an entity that no longer exists from the selection; the primary entity is
    /// cleared when it was that entity.
    pub fn forget(&mut self, entity: u64)
        ensures
            final(self).entities@ == old(self).entities@.filter(|e: u64| e != entity),
            final(self).primary == (if old(self).primary == Some(entity) {
                None
            } else {
                old(self).primary
            }),
            old(self).wf() ==> final(self).wf(),
            !final(self).entities@.contains(entity),
    {
        let ghost old_entities = self.entities@;
        let mut kept: Vec<u64> = Vec::new();
        let mut i: usize = 0;
        while i < self.entities.len()
            invariant
                self.entities@ == old_entities,
                i <= old_entities.len(),
                kept@ == old_entities.take(i as int).filter(|e: u64| e != entity),
            decreases old_entities.len() - i,
        {
            proof {
                reveal_with_fuel(Seq::filter, 1);
                assert(old_entities.take(i + 1).drop_last() == old_entities.take(i as int));
            }
            let e = self.entities[i];
            if e != entity {
                kept.push(e);
            }
            i = i + 1;
        }
        proof {
            assert(old_entities.take(old_entities.len() as int) == old_entities);
        }
        proof {
            let pred = |e: u64| e != entity;
            if old_entities.filter(pred).contains(entity) {
                old_entities.lemma_filter_contains_rev(pred, entity);
                let k = choose|k: int| 0 <= k < old_entities.filter(pred).len()
                    && old_entities.filter(pred)[k] == entity;
                old_entities.lemma_filter_pred(pred, k);
            }
            if old_entities.no_duplicates() {
                lemma_filter_no_duplicates(old_entities, pred);
            }
            reveal(Seq::filter);
            if self.primary is Some && self.primary != Some(entity) && old_entities.len() > 0 {
                if old_entities.last() == self.primary->0 {
                    assert(old_entities.filter(pred) == old_entities.drop_last().filter(pred).push(
                        old_entities.last(),
                    ));
                }
            }
        }
        self.entities = kept;
        if self.primary == Some(entity) {
            self.primary = None;
        }
    }
}

} // verus!
