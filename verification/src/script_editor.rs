//! State of the script editor window: the script being edited and whether it has
//! unsaved changes. Reading and writing files is left to the caller.

use vstd::prelude::*;
use crate::paths::{join_path, joined_path};
use crate::project::ProjectResource;
use crate::text::joined;

verus! {

/// The text a new script starts with.
pub open spec fn new_script_template() -> Seq<char> {
    "-- New Lua script\n-- Attach to an entity via the Inspector\n\nfunction on_start(entity)\n    print(\"Hello from \" .. tostring(entity))\nend\n\nfunction on_update(entity, dt)\n    -- Called every frame while playing\nend\n"@
}

/// Persistent state of the script editor.
#[derive(Debug)]
pub struct ScriptEditorState {
    /// Whether the window is open.
    pub open: bool,
    /// Path of the script being edited, if it has one.
    pub current_path: Option<String>,
    /// Text of the script being edited.
    pub content: String,
    /// Name shown in the title bar.
    pub title: String,
    /// Whether the text changed since it was last loaded or saved.
    pub dirty: bool,
    /// The file name typed for "New Script".
    pub new_name: String,
}

impl Default for ScriptEditorState {
    fn default() -> (r: Self)
        ensures
            !r.open,
            r.current_path is None,
            r.content@ == Seq::<char>::empty(),
            r.title@ == "Script Editor"@,
            !r.dirty,
            r.new_name@ == "new_script.lua"@,
    {
        ScriptEditorState {
            open: false,
            current_path: None,
            content: String::new(),
            title: String::from_str("Script Editor"),
            dirty: false,
            new_name: String::from_str("new_script.lua"),
        }
    }
}

impl ScriptEditorState {
    /// The file name a new script gets: the typed name, or `new_script.lua` when none
    /// was typed.
    pub fn new_script_file_name(&self) -> (r: String)
        ensures
            r@ == (if self.new_name@.len() == 0 {
                "new_script.lua"@
            } else {
                self.new_name@
            }),
    {
        if self.new_name.as_str().is_empty() {
            String::from_str("new_script.lua")
        } else {
            self.new_name.clone()
        }
    }

    /// Start a new script in the project's `assets/scripts` folder, named by
    /// [`Self::new_script_file_name`] and filled with the template; it is unsaved and
    /// nothing is written yet. Paths are joined with the separator `sep`.
    pub fn new_script(&mut self, project: &ProjectResource, sep: char)
        ensures
            final(self).current_path matches Some(p) && p@ == joined_path(
                joined_path(project.assets_dir@, "scripts"@, sep),
                final(self).title@,
                sep,
            ),
            final(self).content@ == new_script_template(),
            final(self).title@ == (if old(self).new_name@.len() == 0 {
                "new_script.lua"@
            } else {
                old(self).new_name@
            }),
            final(self).dirty,
            final(self).open == old(self).open,
            final(self).new_name == old(self).new_name,
    {
        let name = self.new_script_file_name();
        let scripts = join_path(project.assets_dir.as_str(), "scripts", sep);
        let path = join_path(scripts.as_str(), name.as_str(), sep);
        self.current_path = Some(path);
        self.content = String::from_str(
            "-- New Lua script\n-- Attach to an entity via the Inspector\n\nfunction on_start(entity)\n    print(\"Hello from \" .. tostring(entity))\nend\n\nfunction on_update(entity, dt)\n    -- Called every frame while playing\nend\n",
        );
        self.title = name;
        self.dirty = true;
    }

    /// A script file was read: edit `content` from `path`, titled by the file name
    /// (or `Script Editor` when the path has none); it has no unsaved changes.
    pub fn load(&mut self, path: String, file_name: Option<String>, content: String)
        ensures
            final(self).current_path == Some(path),
            final(self).content == content,
            final(self).title@ == (match file_name {
                Some(n) => n@,
                None => "Script Editor"@,
            }),
            !final(self).dirty,
            final(self).open == old(self).open,
            final(self).new_name == old(self).new_name,
    {
        self.current_path = Some(path);
        self.content = content;
        self.title = match file_name {
            Some(n) => n,
            None => String::from_str("Script Editor"),
        };
        self.dirty = false;
    }

    /// The outcome of writing the script to its path: a successful write clears the
    /// unsaved mark; nothing changes when it failed or there is no path.
    pub fn save(&mut self, written: bool)
        ensures
            final(self).dirty == (old(self).dirty && !(written && old(self).current_path is Some)),
            final(self).current_path == old(self).current_path,
            final(self).content == old(self).content,
            final(self).title == old(self).title,
            final(self).open == old(self).open,
            final(self).new_name == old(self).new_name,
    {
        if self.current_path.is_some() && written {
            self.dirty = false;
        }
    }

    /// The window title: the script's title, marked with `* ` when it has unsaved
    /// changes.
    pub fn window_title(&self) -> (r: String)
        ensures
            r@ == (if self.dirty {
                "* "@ + self.title@ + " \u{2014} Script Editor"@
            } else {
                self.title@ + " \u{2014} Script Editor"@
            }),
    {
        let base = joined(self.title.as_str(), " \u{2014} Script Editor");
        if self.dirty {
            joined("* ", base.as_str())
        } else {
            base
        }
    }
}

} // verus!
