//! Core logic of a scene editor built around an entity-component engine:
//! editor play-mode state machine, selection, undo / redo history, the
//! console log buffer, the asset database, recent scenes and panel state.

pub mod asset_db;
pub mod components;
pub mod editor_log;
pub mod hierarchy;
pub mod history;
pub mod panels;
pub mod paths;
pub mod project;
pub mod script_editor;
pub mod sorting;
pub mod state;
pub mod text;
pub mod theme;
