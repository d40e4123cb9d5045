//! The active project: name, paths and recently opened scenes.

use vstd::prelude::*;
use crate::paths::{join_path, joined_path, paths_equal, same_path};

verus! {

broadcast use vstd::seq_lib::group_seq_properties;

/// The most recent scenes remembered.
pub const MAX_RECENT_SCENES: usize = 10;

/// The recent-scene list after `scene` has been opened: `scene` first, then the
/// other scenes in their previous order (without any path equal to `scene`, with
/// `sep` as the platform's separator), at most [`MAX_RECENT_SCENES`] of them.
pub open spec fn recent_after_touch(recent: Seq<String>, scene: String, sep: char) -> Seq<String> {
    let s = seq![scene] + recent.filter(|p: String| !same_path(p@, scene@, sep));
    if s.len() > MAX_RECENT_SCENES {
        s.take(MAX_RECENT_SCENES as int)
    } else {
        s
    }
}

/// The currently open project.
#[derive(Debug)]
pub struct ProjectResource {
    /// Human-readable project name.
    pub name: String,
    /// Path of the project root.
    pub root: String,
    /// Path of the project's `assets/` folder.
    pub assets_dir: String,
    /// Path of the project's `src/` folder.
    pub src_dir: String,
    /// Most recently opened scenes, most recent first.
    pub recent_scenes: Vec<String>,
    /// Engine version the project was created against.
    pub bevy_version: String,
    /// Project version.
    pub version: String,
}

impl ProjectResource {
    /// A fresh, untitled project rooted at `root`, with `assets` and `src` folders
    /// inside it (joined with the separator `sep`), the given version and no recent
    /// scenes.
    pub fn untitled(root: String, version: String, sep: char) -> (r: ProjectResource)
        ensures
            r.name@ == "Untitled Project"@,
            r.root == root,
            r.assets_dir@ == joined_path(root@, "assets"@, sep),
            r.src_dir@ == joined_path(root@, "src"@, sep),
            r.recent_scenes@ == Seq::<String>::empty(),
            r.bevy_version@ == "0.14"@,
            r.version == version,
    {
        let assets_dir = join_path(root.as_str(), "assets", sep);
        let src_dir = join_path(root.as_str(), "src", sep);
        ProjectResource {
            name: String::from_str("Untitled Project"),
            root,
            assets_dir,
            src_dir,
            recent_scenes: Vec::new(),
            bevy_version: String::from_str("0.14"),
            version,
        }
    }

    /// Mark a scene as recently opened (moves it to the front of the list); entries
    /// that name the same path, compared by components with `sep` as the platform's
    /// separator, are dropped.
    pub fn touch_recent_scene(&mut self, scene: String, sep: char)
        ensures
            final(self).recent_scenes@ == recent_after_touch(old(self).recent_scenes@, scene, sep),
            final(self).name == old(self).name,
            final(self).root == old(self).root,
            final(self).assets_dir == old(self).assets_dir,
            final(self).src_dir == old(self).src_dir,
            final(self).bevy_version == old(self).bevy_version,
            final(self).version == old(self).version,
    {
        let ghost old_recent = self.recent_scenes@;
        let ghost pred = |p: String| !same_path(p@, scene@, sep);
        let mut kept: Vec<String> = Vec::new();
        let mut i: usize = 0;
        while i < self.recent_scenes.len()
            invariant
                self.recent_scenes@ == old_recent,
                pred == (|p: String| !same_path(p@, scene@, sep)),
                i <= old_recent.len(),
                kept@ == old_recent.take(i as int).filter(pred),
            decreases old_recent.len() - i,
        {
            proof {
                reveal_with_fuel(Seq::filter, 1);
                assert(old_recent.take(i + 1).drop_last() == old_recent.take(i as int));
            }
            let keep = !paths_equal(self.recent_scenes[i].as_str(), scene.as_str(), sep);
            proof {
                assert(old_recent.take(i + 1).last() == old_recent[i as int]);
                assert(pred(old_recent[i as int]) == keep);
            }
            if keep {
                kept.push(self.recent_scenes[i].clone());
            }
            i = i + 1;
        }
        proof {
            assert(old_recent.take(old_recent.len() as int) == old_recent);
        }
        kept.insert(0, scene);
        kept.truncate(MAX_RECENT_SCENES);
        self.recent_scenes = kept;
    }
}

/// After a scene is touched it is the first recent scene and no other entry names the
/// same path, the list holds at most [`MAX_RECENT_SCENES`] scenes, and every other
/// scene in it was already in the list.
pub proof fn lemma_touch_recent_scene(recent: Seq<String>, scene: String, sep: char)
    ensures
        recent_after_touch(recent, scene, sep).len() >= 1,
        recent_after_touch(recent, scene, sep)[0] == scene,
        recent_after_touch(recent, scene, sep).len() <= MAX_RECENT_SCENES,
        forall|i: int|
            1 <= i < recent_after_touch(recent, scene, sep).len() ==> !same_path((#[trigger] recent_after_touch(
                recent,
                scene,
                sep,
            )[i])@, scene@, sep) && recent.contains(recent_after_touch(recent, scene, sep)[i]),
{
    let pred = |p: String| !same_path(p@, scene@, sep);
    let f = recent.filter(pred);
    let s = seq![scene] + f;
    let r = recent_after_touch(recent, scene, sep);
    assert forall|i: int| 1 <= i < r.len() implies !same_path((#[trigger] r[i])@, scene@, sep) && recent.contains(
        r[i],
    ) by {
        assert(r[i] == s[i]);
        assert(s[i] == f[i - 1]);
        recent.lemma_filter_pred(pred, i - 1);
        assert(f.contains(f[i - 1]));
        recent.lemma_filter_contains_rev(pred, f[i - 1]);
    }
}

/// Touching a scene keeps every other entry that names another path, in its old
/// order after the touched scene, and cuts the list only at [`MAX_RECENT_SCENES`]:
/// with `f` the old entries naming other paths, the new list is the first
/// `min(10, 1 + |f|)` items of `scene` followed by `f`.
pub proof fn lemma_touch_keeps_other_scenes(recent: Seq<String>, scene: String, sep: char)
    ensures
        ({
            let f = recent.filter(|p: String| !same_path(p@, scene@, sep));
            let n = if 1 + f.len() < 10 {
                1 + f.len()
            } else {
                10
            };
            recent_after_touch(recent, scene, sep) == (seq![scene] + f).take(n as int)
        }),
        forall|j: int|
            0 <= j < recent.len() && !same_path(recent[j]@, scene@, sep) && recent.take(j).filter(
                |p: String| !same_path(p@, scene@, sep),
            ).len() < 9 ==> #[trigger] recent_after_touch(recent, scene, sep).contains(recent[j]),
{
    let pred = |p: String| !same_path(p@, scene@, sep);
    let f = recent.filter(pred);
    let s = seq![scene] + f;
    let r = recent_after_touch(recent, scene, sep);
    if s.len() <= MAX_RECENT_SCENES {
        assert(s.take(s.len() as int) == s);
    }
    assert forall|j: int|
        0 <= j < recent.len() && !same_path(recent[j]@, scene@, sep) && recent.take(j).filter(
            pred,
        ).len() < 9 implies #[trigger] r.contains(recent[j]) by {
        let m: int = recent.take(j).filter(pred).len() as int;
        assert(recent.take(j + 1) == recent.take(j).push(recent[j]));
        assert(recent.take(j + 1).drop_last() == recent.take(j));
        assert(recent.take(j + 1).last() == recent[j]);
        assert(pred(recent[j]));
        reveal_with_fuel(Seq::filter, 1);
        assert(recent.take(j + 1).filter(pred) == recent.take(j).filter(pred).push(recent[j]));
        assert(recent == recent.take(j + 1) + recent.skip(j + 1));
        Seq::filter_distributes_over_add(recent.take(j + 1), recent.skip(j + 1), pred);
        assert(f[m] == recent[j]);
        assert(s[m + 1] == recent[j]);
        assert(r[m + 1] == recent[j]);
    }
}

} // verus!
