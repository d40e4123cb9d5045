use bevy_editor::components::duplicate_name;
use bevy_editor::hierarchy::{root_nodes, HierarchyNode};
use bevy_editor::project::ProjectResource;
use bevy_editor::script_editor::ScriptEditorState;
use bevy_editor::theme::{EditorTheme, Rgb, ThemeKind};

fn node(entity: u64, parent: Option<u64>, name: &str) -> HierarchyNode {
    HierarchyNode { entity, parent, name: name.to_string() }
}

fn project() -> ProjectResource {
    ProjectResource::untitled("/p".to_string(), "0.1.0".to_string(), '/')
}

#[test]
fn untitled_project() {
    let p = project();
    assert_eq!(p.name, "Untitled Project");
    assert_eq!(p.bevy_version, "0.14");
    assert!(p.recent_scenes.is_empty());
    assert_eq!(p.root, "/p");
    assert_eq!(p.assets_dir, "/p/assets");
    assert_eq!(p.src_dir, "/p/src");
    assert_eq!(p.version, "0.1.0");
    let q = ProjectResource::untitled("/work/".to_string(), "2".to_string(), '/');
    assert_eq!(q.assets_dir, "/work/assets");
    let w = ProjectResource::untitled("C:\\game".to_string(), "2".to_string(), '\\');
    assert_eq!(w.src_dir, "C:\\game\\src");
    let e = ProjectResource::untitled(String::new(), "2".to_string(), '/');
    assert_eq!(e.assets_dir, "assets");
}

#[test]
fn recent_scenes_compare_paths_by_components() {
    let mut p = project();
    p.touch_recent_scene("scenes/a.scn.ron".to_string(), '/');
    p.touch_recent_scene("/abs/b.scn.ron".to_string(), '/');
    p.touch_recent_scene("scenes//a.scn.ron".to_string(), '/');
    assert_eq!(p.recent_scenes, vec!["scenes//a.scn.ron", "/abs/b.scn.ron"]);
    p.touch_recent_scene("/abs/./b.scn.ron/".to_string(), '/');
    assert_eq!(p.recent_scenes, vec!["/abs/./b.scn.ron/", "scenes//a.scn.ron"]);
    p.touch_recent_scene("abs/b.scn.ron".to_string(), '/');
    assert_eq!(p.recent_scenes.len(), 3);
}

#[test]
fn recent_scenes_with_platform_separator() {
    let mut p = project();
    p.touch_recent_scene("C:\\game\\level.scn.ron".to_string(), '\\');
    p.touch_recent_scene("C:/game/level.scn.ron".to_string(), '\\');
    assert_eq!(p.recent_scenes, vec!["C:/game/level.scn.ron"]);
    p.touch_recent_scene("C:\\game\\level.scn.ron".to_string(), '/');
    assert_eq!(p.recent_scenes.len(), 2);
}

#[test]
fn recent_scenes_move_to_front() {
    let mut p = project();
    p.touch_recent_scene("a.scn.ron".to_string(), '/');
    p.touch_recent_scene("b.scn.ron".to_string(), '/');
    p.touch_recent_scene("c.scn.ron".to_string(), '/');
    p.touch_recent_scene("a.scn.ron".to_string(), '/');
    assert_eq!(p.recent_scenes, vec!["a.scn.ron", "c.scn.ron", "b.scn.ron"]);
}

#[test]
fn recent_scenes_keep_ten() {
    let mut p = project();
    for i in 0..15 {
        p.touch_recent_scene(format!("s{i}"), '/');
    }
    assert_eq!(p.recent_scenes.len(), 10);
    assert_eq!(p.recent_scenes[0], "s14");
    assert_eq!(p.recent_scenes[9], "s5");
}

#[test]
fn hierarchy_roots_sorted_by_name() {
    let nodes = vec![
        node(1, None, "Zed"),
        node(2, Some(1), "Child"),
        node(3, Some(99), "Orphan"),
        node(4, None, "Alpha"),
        node(5, None, "Zed"),
        node(6, None, ""),
    ];
    let roots: Vec<u64> = root_nodes(&nodes).iter().map(|n| n.entity).collect();
    assert_eq!(roots, vec![6, 4, 3, 1, 5]);
}

#[test]
fn duplicate_names() {
    assert_eq!(duplicate_name(Some("Cube")), "Cube (copy)");
    assert_eq!(duplicate_name(None), "Entity (copy)");
}

#[test]
fn themes() {
    let d = EditorTheme::dark();
    assert_eq!(d.bg, Rgb { r: 30, g: 30, b: 30 });
    assert_eq!(d.accent, Rgb { r: 0, g: 122, b: 204 });
    assert_eq!(EditorTheme::default(), d);
    let l = EditorTheme::light();
    assert_eq!(l.fg, Rgb { r: 40, g: 40, b: 40 });
    assert_eq!(l.success, Rgb { r: 40, g: 160, b: 70 });
    assert_eq!(ThemeKind::default(), ThemeKind::Dark);
}

#[test]
fn script_editor_flow() {
    let mut s = ScriptEditorState::default();
    assert_eq!(s.title, "Script Editor");
    assert_eq!(s.new_script_file_name(), "new_script.lua");
    s.new_name = String::new();
    assert_eq!(s.new_script_file_name(), "new_script.lua");
    s.new_name = String::new();
    s.new_script(&project(), '/');
    assert_eq!(s.title, "new_script.lua");
    assert_eq!(s.current_path.as_deref(), Some("/p/assets/scripts/new_script.lua"));
    assert!(s.new_name.is_empty() && !s.open);
    s.new_name = "enemy.lua".to_string();
    s.new_script(&project(), '/');
    assert_eq!(s.current_path.as_deref(), Some("/p/assets/scripts/enemy.lua"));
    assert!(s.dirty);
    assert_eq!(s.title, "enemy.lua");
    assert!(s.content.starts_with("-- New Lua script\n"));
    assert_eq!(s.window_title(), "* enemy.lua \u{2014} Script Editor");
    s.save(false);
    assert!(s.dirty);
    s.save(true);
    assert!(!s.dirty);
    assert_eq!(s.window_title(), "enemy.lua \u{2014} Script Editor");
    s.load("/x/boss.lua".to_string(), Some("boss.lua".to_string()), "print(1)".to_string());
    assert_eq!(s.title, "boss.lua");
    assert_eq!(s.content, "print(1)");
    assert!(!s.dirty);
    s.load("/".to_string(), None, String::new());
    assert_eq!(s.title, "Script Editor");
}
