use bevy_editor::state::{EditorState, Selection, StateControl};

#[test]
fn play_mode_and_edit_mode() {
    assert!(EditorState::Playing.is_play_mode());
    assert!(EditorState::Paused.is_play_mode());
    assert!(!EditorState::Editing.is_play_mode());
    assert!(!EditorState::Loading.is_play_mode());
    assert!(EditorState::Editing.is_edit_mode());
    assert!(!EditorState::Paused.is_edit_mode());
    assert_eq!(EditorState::default(), EditorState::Loading);
}

#[test]
fn state_labels() {
    assert_eq!(EditorState::Loading.label(), "Loading");
    assert_eq!(EditorState::Editing.label(), "Editing");
    assert_eq!(EditorState::Playing.label(), "Playing");
    assert_eq!(EditorState::Paused.label(), "Paused");
}

#[test]
fn f5_toggles_between_editing_and_playing() {
    assert_eq!(EditorState::Editing.on_control(StateControl::TogglePlay), Some(EditorState::Playing));
    assert_eq!(EditorState::Playing.on_control(StateControl::TogglePlay), Some(EditorState::Editing));
    assert_eq!(EditorState::Paused.on_control(StateControl::TogglePlay), Some(EditorState::Editing));
    assert_eq!(EditorState::Loading.on_control(StateControl::TogglePlay), None);
}

#[test]
fn f6_toggles_pause() {
    assert_eq!(EditorState::Playing.on_control(StateControl::TogglePause), Some(EditorState::Paused));
    assert_eq!(EditorState::Paused.on_control(StateControl::TogglePause), Some(EditorState::Playing));
    assert_eq!(EditorState::Editing.on_control(StateControl::TogglePause), None);
    assert_eq!(EditorState::Loading.on_control(StateControl::TogglePause), None);
}

#[test]
fn toolbar_buttons() {
    assert_eq!(EditorState::Editing.on_control(StateControl::PlayButton), Some(EditorState::Playing));
    assert_eq!(EditorState::Paused.on_control(StateControl::PlayButton), Some(EditorState::Playing));
    assert_eq!(EditorState::Playing.on_control(StateControl::PlayButton), None);
    assert_eq!(EditorState::Loading.on_control(StateControl::PlayButton), None);
    assert_eq!(EditorState::Playing.on_control(StateControl::PauseButton), Some(EditorState::Paused));
    assert_eq!(EditorState::Paused.on_control(StateControl::PauseButton), None);
    assert_eq!(EditorState::Playing.on_control(StateControl::StopButton), Some(EditorState::Editing));
    assert_eq!(EditorState::Paused.on_control(StateControl::StopButton), Some(EditorState::Editing));
    assert_eq!(EditorState::Loading.on_control(StateControl::StopButton), Some(EditorState::Editing));
    assert_eq!(EditorState::Editing.on_control(StateControl::StopButton), None);
    assert_eq!(EditorState::Loading.on_control(StateControl::RunMenu), Some(EditorState::Playing));
}

#[test]
fn pause_twice_returns_to_playing() {
    let s = EditorState::Playing;
    let t = s.on_control(StateControl::TogglePause).unwrap();
    let u = t.on_control(StateControl::TogglePause).unwrap();
    assert_eq!(u, EditorState::Playing);
}

#[test]
fn selection_set_replaces() {
    let mut sel = Selection::default();
    assert!(!sel.is_empty());
    sel.toggle(1);
    sel.toggle(2);
    sel.set(7);
    assert_eq!(sel.primary, Some(7));
    assert_eq!(sel.entities, vec![7]);
    assert!(sel.contains(7));
    assert!(!sel.contains(1));
}

#[test]
fn selection_toggle_adds_and_removes() {
    let mut sel = Selection::default();
    sel.toggle(3);
    sel.toggle(5);
    sel.toggle(9);
    assert_eq!(sel.entities, vec![3, 5, 9]);
    assert_eq!(sel.primary, Some(9));
    sel.toggle(5);
    assert_eq!(sel.entities, vec![3, 9]);
    assert_eq!(sel.primary, Some(9));
    sel.toggle(9);
    assert_eq!(sel.entities, vec![3]);
    assert_eq!(sel.primary, Some(3));
    assert!(sel.is_empty());
    sel.toggle(3);
    assert!(!sel.is_empty());
    assert_eq!(sel.primary, None);
}

#[test]
fn selection_toggle_twice_restores() {
    let mut sel = Selection::default();
    sel.toggle(1);
    sel.toggle(2);
    sel.toggle(4);
    sel.toggle(4);
    assert_eq!(sel.entities, vec![1, 2]);
}

#[test]
fn selection_clear() {
    let mut sel = Selection::default();
    sel.set(4);
    assert!(sel.is_empty());
    sel.clear();
    assert!(!sel.is_empty());
    assert_eq!(sel.primary, None);
}

#[test]
fn selection_forget_despawned() {
    let mut sel = Selection::default();
    sel.toggle(1);
    sel.toggle(2);
    sel.toggle(3);
    sel.forget(2);
    assert_eq!(sel.entities, vec![1, 3]);
    assert_eq!(sel.primary, Some(3));
    sel.forget(3);
    assert_eq!(sel.entities, vec![1]);
    assert_eq!(sel.primary, None);
    sel.forget(42);
    assert_eq!(sel.entities, vec![1]);
}

#[test]
fn selection_summary_text() {
    let mut sel = Selection::default();
    assert_eq!(sel.summary(), "No entity selected");
    sel.toggle(1);
    assert_eq!(sel.summary(), "1 entity selected");
    sel.toggle(2);
    assert_eq!(sel.summary(), "2 entities selected");
    for e in 10..22 {
        sel.toggle(e);
    }
    assert_eq!(sel.summary(), "14 entities selected");
}
