use bevy_editor::asset_db::{file_extension, is_hidden_dir_name, AssetDatabase, AssetEntry, AssetKind};
use std::time::SystemTime;

fn entry(rel: &str, kind: AssetKind, size: u64) -> AssetEntry {
    AssetEntry {
        name: rel.rsplit('/').next().unwrap().to_string(),
        path: format!("/project/assets/{rel}"),
        relative_path: rel.to_string(),
        kind,
        size_bytes: size,
        modified: SystemTime::UNIX_EPOCH,
    }
}

#[test]
fn kind_from_extension() {
    assert_eq!(AssetKind::from_extension("png"), AssetKind::Texture);
    assert_eq!(AssetKind::from_extension("PNG"), AssetKind::Texture);
    assert_eq!(AssetKind::from_extension("Jpeg"), AssetKind::Texture);
    assert_eq!(AssetKind::from_extension("ktx2"), AssetKind::Texture);
    assert_eq!(AssetKind::from_extension("glb"), AssetKind::Model);
    assert_eq!(AssetKind::from_extension("FBX"), AssetKind::Model);
    assert_eq!(AssetKind::from_extension("ogg"), AssetKind::Audio);
    assert_eq!(AssetKind::from_extension("scn"), AssetKind::Scene);
    assert_eq!(AssetKind::from_extension("scn.ron"), AssetKind::Scene);
    assert_eq!(AssetKind::from_extension("lua"), AssetKind::Script);
    assert_eq!(AssetKind::from_extension("rhai"), AssetKind::Script);
    assert_eq!(AssetKind::from_extension("ron"), AssetKind::Config);
    assert_eq!(AssetKind::from_extension("yml"), AssetKind::Config);
    assert_eq!(AssetKind::from_extension("txt"), AssetKind::Other);
    assert_eq!(AssetKind::from_extension(""), AssetKind::Other);
    assert_eq!(AssetKind::from_extension("pngx"), AssetKind::Other);
}

#[test]
fn kind_labels_and_icons() {
    assert_eq!(AssetKind::Texture.label(), "Texture");
    assert_eq!(AssetKind::Other.label(), "Other");
    assert_eq!(AssetKind::Script.icon(), "[#]");
    assert_eq!(AssetKind::Config.icon(), "[C]");
    assert_eq!(AssetKind::Other.icon(), "[?]");
}

#[test]
fn extension_of_file_names() {
    assert_eq!(file_extension("cube.glb").as_deref(), Some("glb"));
    assert_eq!(file_extension("level.scn.ron").as_deref(), Some("ron"));
    assert_eq!(file_extension("README").as_deref(), None);
    assert_eq!(file_extension(".gitignore").as_deref(), None);
    assert_eq!(file_extension(".config.toml").as_deref(), Some("toml"));
    assert_eq!(file_extension("trailing.").as_deref(), Some(""));
    assert_eq!(file_extension("..").as_deref(), None);
}

#[test]
fn hidden_directories() {
    assert!(is_hidden_dir_name(".git"));
    assert!(!is_hidden_dir_name("textures"));
    assert!(!is_hidden_dir_name(""));
}

#[test]
fn entry_from_scan() {
    let e = AssetEntry::from_scan(
        "C:\\p\\assets\\models\\Ship.GLTF".to_string(),
        "Ship.GLTF".to_string(),
        "models\\Ship.GLTF".to_string(),
        2048,
        SystemTime::UNIX_EPOCH,
    );
    assert_eq!(e.relative_path, "models/Ship.GLTF");
    assert_eq!(e.kind, AssetKind::Model);
    assert_eq!(e.name, "Ship.GLTF");
    assert_eq!(e.size_bytes, 2048);
    let f = AssetEntry::from_scan("a/b".to_string(), "b".to_string(), "b".to_string(), 0, SystemTime::UNIX_EPOCH);
    assert_eq!(f.kind, AssetKind::Other);
    let g = AssetEntry::from_scan(
        "/p/assets/scenes/level.scn.ron".to_string(),
        "level.scn.ron".to_string(),
        "scenes/level.scn.ron".to_string(),
        10,
        SystemTime::UNIX_EPOCH,
    );
    assert_eq!(g.kind, AssetKind::Scene);
    let h = AssetEntry::from_scan("x/LEVEL.SCN.RON".to_string(), "LEVEL.SCN.RON".to_string(), "LEVEL.SCN.RON".to_string(), 0, SystemTime::UNIX_EPOCH);
    assert_eq!(h.kind, AssetKind::Scene);
    let k = AssetEntry::from_scan("x/settings.ron".to_string(), "settings.ron".to_string(), "settings.ron".to_string(), 0, SystemTime::UNIX_EPOCH);
    assert_eq!(k.kind, AssetKind::Config);
}

#[test]
fn rescan_sorts_by_relative_path() {
    let mut db = AssetDatabase::default();
    assert!(!db.last_scan_ok);
    db.rescan(vec![
        entry("textures/b.png", AssetKind::Texture, 10),
        entry("audio/z.ogg", AssetKind::Audio, 20),
        entry("textures/a.png", AssetKind::Texture, 30),
        entry("Zeta.toml", AssetKind::Config, 1),
    ]);
    let paths: Vec<&str> = db.entries.iter().map(|e| e.relative_path.as_str()).collect();
    assert_eq!(paths, vec!["Zeta.toml", "audio/z.ogg", "textures/a.png", "textures/b.png"]);
    assert!(db.last_scan_ok);
    assert!(db.last_scan_at.is_some());
}

#[test]
fn rescan_is_stable_for_equal_paths() {
    let mut db = AssetDatabase::default();
    db.rescan(vec![
        entry("b", AssetKind::Texture, 1),
        entry("a", AssetKind::Texture, 2),
        entry("b", AssetKind::Texture, 3),
        entry("a", AssetKind::Texture, 4),
    ]);
    let sizes: Vec<u64> = db.entries.iter().map(|e| e.size_bytes).collect();
    assert_eq!(sizes, vec![2, 4, 1, 3]);
}

#[test]
fn counts_and_totals() {
    let mut db = AssetDatabase::default();
    db.rescan(vec![
        entry("a.png", AssetKind::Texture, 100),
        entry("b.png", AssetKind::Texture, 200),
        entry("c.ogg", AssetKind::Audio, 50),
    ]);
    assert_eq!(db.count_of(AssetKind::Texture), 2);
    assert_eq!(db.count_of(AssetKind::Audio), 1);
    assert_eq!(db.count_of(AssetKind::Model), 0);
    let textures: Vec<&str> = db.of_kind(AssetKind::Texture).iter().map(|e| e.name.as_str()).collect();
    assert_eq!(textures, vec!["a.png", "b.png"]);
    assert!(db.of_kind(AssetKind::Script).is_empty());
    assert_eq!(db.total_size_bytes(), 350);
    assert_eq!(AssetDatabase::default().total_size_bytes(), 0);
}

#[test]
fn failed_scan_keeps_entries() {
    let mut db = AssetDatabase::default();
    db.rescan(vec![entry("a.png", AssetKind::Texture, 100)]);
    assert!(db.last_scan_ok);
    let at = db.last_scan_at;
    db.scan_failed();
    assert!(!db.last_scan_ok);
    assert_eq!(db.entries.len(), 1);
    assert_eq!(db.last_scan_at, at);
}
