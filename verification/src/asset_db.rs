//! Asset database: an in-memory index of the files under a project's `assets/`
//! folder, fed by a directory walk and read by the asset browser panel.

use vstd::prelude::*;
use std::time::SystemTime;
use crate::editor_log::current_time;
use crate::sorting::{TextKeyed, sort_by_text_key, stably_sorted};
use crate::text::{
    ascii_lower, ascii_lower_char, chars_of, eq_ascii_lower, forward_slashes, slice_chars, string_of,
    with_forward_slashes,
};

verus! {

/// Classification of an asset based on its file extension.
#[derive(Debug, Clone, Copy, PartialEq, Eq, Hash, Structural)]
pub enum AssetKind {
    /// Image textures (PNG, JPEG, HDR, KTX2, TGA, BMP).
    Texture,
    /// 3D models (glTF, GLB, OBJ, FBX).
    Model,
    /// Audio (WAV, MP3, OGG, FLAC).
    Audio,
    /// `.scn.ron` Bevy scene files (and `.scn`).
    Scene,
    /// Lua / Rhai scripts.
    Script,
    /// TOML / JSON / RON / YAML config files.
    Config,
    /// Anything else.
    Other,
}

/// The kind of an asset whose extension, already lower-cased, is `e`.
pub open spec fn kind_of_lower_extension(e: Seq<char>) -> AssetKind {
    if e == "png"@ || e == "jpg"@ || e == "jpeg"@ || e == "hdr"@ || e == "ktx2"@ || e == "tga"@
        || e == "bmp"@ {
        AssetKind::Texture
    } else if e == "gltf"@ || e == "glb"@ || e == "obj"@ || e == "fbx"@ {
        AssetKind::Model
    } else if e == "wav"@ || e == "mp3"@ || e == "ogg"@ || e == "flac"@ {
        AssetKind::Audio
    } else if e == "scn"@ || e == "scn.ron"@ {
        AssetKind::Scene
    } else if e == "lua"@ || e == "rhai"@ {
        AssetKind::Script
    } else if e == "toml"@ || e == "json"@ || e == "ron"@ || e == "yaml"@ || e == "yml"@ {
        AssetKind::Config
    } else {
        AssetKind::Other
    }
}

/// The kind of an asset with extension `ext`, compared without regard to ASCII case.
pub open spec fn kind_of_extension(ext: Seq<char>) -> AssetKind {
    kind_of_lower_extension(ascii_lower(ext))
}

/// The label of a kind.
pub open spec fn kind_label(k: AssetKind) -> Seq<char> {
    match k {
        AssetKind::Texture => "Texture"@,
        AssetKind::Model => "Model"@,
        AssetKind::Audio => "Audio"@,
        AssetKind::Scene => "Scene"@,
        AssetKind::Script => "Script"@,
        AssetKind::Config => "Config"@,
        AssetKind::Other => "Other"@,
    }
}

/// The ASCII icon of a kind.
pub open spec fn kind_icon(k: AssetKind) -> Seq<char> {
    match k {
        AssetKind::Texture => "[T]"@,
        AssetKind::Model => "[M]"@,
        AssetKind::Audio => "[A]"@,
        AssetKind::Scene => "[S]"@,
        AssetKind::Script => "[#]"@,
        AssetKind::Config => "[C]"@,
        AssetKind::Other => "[?]"@,
    }
}

/// Whether `c`, lower-cased by ASCII rules, is one of `options`.
fn lower_is_one_of(c: &Vec<char>, options: &[&str]) -> (r: bool)
    ensures
        r == exists|i: int| 0 <= i < options@.len() && ascii_lower(c@) == #[trigger] options@[i]@,
{
    let mut i: usize = 0;
    while i < options.len()
        invariant
            i <= options@.len(),
            forall|j: int| 0 <= j < i ==> ascii_lower(c@) != #[trigger] options@[j]@,
        decreases options@.len() - i,
    {
        if eq_ascii_lower(c, options[i]) {
            return true;
        }
        i = i + 1;
    }
    false
}

impl AssetKind {
    /// Determine the kind from a file extension, ignoring ASCII case.
    pub fn from_extension(ext: &str) -> (r: AssetKind)
        ensures
            r == kind_of_extension(ext@),
    {
        let c = chars_of(ext);
        let texture = ["png", "jpg", "jpeg", "hdr", "ktx2", "tga", "bmp"];
        let model = ["gltf", "glb", "obj", "fbx"];
        let audio = ["wav", "mp3", "ogg", "flac"];
        let scene = ["scn", "scn.ron"];
        let script = ["lua", "rhai"];
        let config = ["toml", "json", "ron", "yaml", "yml"];
        if lower_is_one_of(&c, &texture) {
            AssetKind::Texture
        } else if lower_is_one_of(&c, &model) {
            AssetKind::Model
        } else if lower_is_one_of(&c, &audio) {
            AssetKind::Audio
        } else if lower_is_one_of(&c, &scene) {
            AssetKind::Scene
        } else if lower_is_one_of(&c, &script) {
            AssetKind::Script
        } else if lower_is_one_of(&c, &config) {
            AssetKind::Config
        } else {
            AssetKind::Other
        }
    }

    /// A short label for the asset kind.
    pub fn label(self) -> (r: &'static str)
        ensures
            r@ == kind_label(self),
    {
        match self {
            AssetKind::Texture => "Texture",
            AssetKind::Model => "Model",
            AssetKind::Audio => "Audio",
            AssetKind::Scene => "Scene",
            AssetKind::Script => "Script",
            AssetKind::Config => "Config",
            AssetKind::Other => "Other",
        }
    }

    /// An ASCII icon for the asset kind, used in the asset browser.
    pub fn icon(self) -> (r: &'static str)
        ensures
            r@ == kind_icon(self),
    {
        match self {
            AssetKind::Texture => "[T]",
            AssetKind::Model => "[M]",
            AssetKind::Audio => "[A]",
            AssetKind::Scene => "[S]",
            AssetKind::Script => "[#]",
            AssetKind::Config => "[C]",
            AssetKind::Other => "[?]",
        }
    }
}

/// The position of the last `c` in `s`, or -1 when there is none.
pub open spec fn last_index_of(s: Seq<char>, c: char) -> int
    decreases s.len(),
{
    if s.len() == 0 {
        -1
    } else if s.last() == c {
        s.len() - 1
    } else {
        last_index_of(s.drop_last(), c)
    }
}

/// The extension of a file name, by the rule of `Path::extension`: the part after the
/// last `.`; none when there is no `.`, when the only `.` is the first character, or
/// when the name is `..`.
pub open spec fn extension_of(name: Seq<char>) -> Option<Seq<char>> {
    let d = last_index_of(name, '.');
    if name == ".."@ || d <= 0 {
        None
    } else {
        Some(name.subrange(d + 1, name.len() as int))
    }
}

/// The extension of a file name, or the empty text when it has none.
pub open spec fn extension_or_empty(name: Seq<char>) -> Seq<char> {
    match extension_of(name) {
        Some(e) => e,
        None => Seq::empty(),
    }
}

proof fn lemma_last_index_bounds(s: Seq<char>, c: char)
    ensures
        -1 <= last_index_of(s, c) < s.len(),
        last_index_of(s, c) >= 0 ==> s[last_index_of(s, c)] == c,
        forall|j: int| last_index_of(s, c) < j < s.len() ==> s[j] != c,
    decreases s.len(),
{
    if s.len() > 0 && s.last() != c {
        lemma_last_index_bounds(s.drop_last(), c);
        assert forall|j: int| last_index_of(s, c) < j < s.len() implies s[j] != c by {
            if j < s.len() - 1 {
                assert(s.drop_last()[j] == s[j]);
            }
        }
    }
}

/// The extension of a file name (`Path::extension` applied to a bare file name).
pub fn file_extension(name: &str) -> (r: Option<String>)
    ensures
        match r {
            Some(e) => extension_of(name@) == Some(e@),
            None => extension_of(name@) is None,
        },
{
    let c = chars_of(name);
    let n = c.len();
    let mut i: usize = n;
    proof {
        assert(name@.take(n as int) == name@);
    }
    while i > 0 && c[i - 1] != '.'
        invariant
            c@ == name@,
            n == c@.len(),
            i <= n,
            last_index_of(name@, '.') == last_index_of(name@.take(i as int), '.'),
        decreases i,
    {
        proof {
            assert(name@.take(i as int).drop_last() == name@.take(i - 1));
        }
        i = i - 1;
    }
    proof {
        if i > 0 {
            assert(name@.take(i as int).last() == '.');
        }
    }
    if i <= 1 || same_dots(&c) {
        return None;
    }
    let mut ext: Vec<char> = Vec::new();
    let mut j: usize = i;
    while j < n
        invariant
            c@ == name@,
            n == c@.len(),
            1 < i <= j <= n,
            ext@ == name@.subrange(i as int, j as int),
        decreases n - j,
    {
        ext.push(c[j]);
        j = j + 1;
        proof {
            assert(name@.subrange(i as int, j as int) == name@.subrange(i as int, j - 1).push(
                name@[j - 1],
            ));
        }
    }
    Some(string_of(&ext))
}

/// Whether the characters are exactly `..`.
fn same_dots(c: &Vec<char>) -> (r: bool)
    ensures
        r == (c@ == ".."@),
{
    proof {
        reveal_strlit("..");
        assert(".."@ == seq!['.', '.']);
    }
    let r = c.len() == 2 && c[0] == '.' && c[1] == '.';
    proof {
        if r {
            assert(c@ =~= seq!['.', '.']);
        }
    }
    r
}

/// Whether a directory name marks a hidden directory (it starts with `.`); the
/// directory walk skips those.
pub fn is_hidden_dir_name(name: &str) -> (r: bool)
    ensures
        r == (name@.len() > 0 && name@[0] == '.'),
{
    let c = chars_of(name);
    c.len() > 0 && c[0] == '.'
}

/// The scene-file suffix, which decides the kind of a file before its extension does.
pub open spec fn scene_suffix() -> Seq<char> {
    ".scn.ron"@
}

/// The kind of a file named `name`: a name ending in `.scn.ron` (in any ASCII case) is
/// a scene; otherwise the kind comes from the extension.
pub open spec fn kind_of_file_name(name: Seq<char>) -> AssetKind {
    let l = ascii_lower(name);
    if l.len() >= 8 && l.subrange(l.len() - 8, l.len() as int) == scene_suffix() {
        AssetKind::Scene
    } else {
        kind_of_extension(extension_or_empty(name))
    }
}

/// Whether the name ends in `.scn.ron`, ignoring ASCII case.
fn has_scene_suffix(c: &Vec<char>) -> (r: bool)
    ensures
        r == (ascii_lower(c@).len() >= 8 && ascii_lower(c@).subrange(
            ascii_lower(c@).len() - 8,
            ascii_lower(c@).len() as int,
        ) == scene_suffix()),
{
    let n = c.len();
    if n < 8 {
        return false;
    }
    let tail = slice_chars(c, n - 8, n);
    proof {
        assert(ascii_lower(tail@) =~= ascii_lower(c@).subrange(n - 8, n as int));
    }
    eq_ascii_lower(&tail, ".scn.ron")
}

/// One entry of the [`AssetDatabase`].
#[derive(Debug)]
pub struct AssetEntry {
    /// File name (without directory).
    pub name: String,
    /// Full path of the file.
    pub path: String,
    /// Path relative to the project `assets/` folder, with `/` separators.
    pub relative_path: String,
    /// What kind of asset this is.
    pub kind: AssetKind,
    /// File size in bytes.
    pub size_bytes: u64,
    /// Last-modified time.
    pub modified: SystemTime,
}

impl TextKeyed for AssetEntry {
    open spec fn text_key(&self) -> Seq<char> {
        self.relative_path@
    }

    fn key_chars(&self) -> (r: Vec<char>) {
        chars_of(self.relative_path.as_str())
    }
}

impl AssetEntry {
    /// The entry for one file found by the directory walk: `relative` is its path
    /// relative to the assets folder as the platform writes it; the kind comes from
    /// the extension of `name`.
    pub fn from_scan(
        path: String,
        name: String,
        relative: String,
        size_bytes: u64,
        modified: SystemTime,
    ) -> (r: AssetEntry)
        ensures
            r.path == path,
            r.name == name,
            r.relative_path@ == forward_slashes(relative@),
            r.kind == kind_of_file_name(name@),
            r.size_bytes == size_bytes,
            r.modified == modified,
    {
        proof {
            reveal_strlit("");
            assert(""@ =~= Seq::<char>::empty());
        }
        let name_chars = chars_of(name.as_str());
        let kind = if has_scene_suffix(&name_chars) {
            AssetKind::Scene
        } else {
            match file_extension(name.as_str()) {
                Some(e) => AssetKind::from_extension(e.as_str()),
                None => AssetKind::from_extension(""),
            }
        };
        let relative_path = with_forward_slashes(relative.as_str());
        AssetEntry { name, path, relative_path, kind, size_bytes, modified }
    }
}

/// The sum of the sizes of `entries`.
pub open spec fn total_size(entries: Seq<AssetEntry>) -> int
    decreases entries.len(),
{
    if entries.len() == 0 {
        0
    } else {
        total_size(entries.drop_last()) + entries.last().size_bytes
    }
}

/// The entries of kind `kind`, in order.
pub open spec fn entries_of_kind(entries: Seq<AssetEntry>, kind: AssetKind) -> Seq<AssetEntry> {
    entries.filter(|e: AssetEntry| e.kind == kind)
}

proof fn lemma_total_size_prefix(entries: Seq<AssetEntry>, i: int)
    requires
        0 <= i <= entries.len(),
    ensures
        0 <= total_size(entries.take(i)) <= total_size(entries),
    decreases entries.len(),
{
    if i < entries.len() {
        assert(entries.drop_last().take(i) == entries.take(i));
        lemma_total_size_prefix(entries.drop_last(), i);
    } else {
        assert(entries.take(i) == entries);
        if entries.len() > 0 {
            lemma_total_size_prefix(entries.drop_last(), i - 1);
            assert(entries.drop_last().take(i - 1) == entries.drop_last());
        }
    }
}

/// The number of entries of each kind, added over all kinds.
pub open spec fn kind_count_total(entries: Seq<AssetEntry>) -> nat {
    entries_of_kind(entries, AssetKind::Texture).len() + entries_of_kind(entries, AssetKind::Model).len()
        + entries_of_kind(entries, AssetKind::Audio).len() + entries_of_kind(
        entries,
        AssetKind::Scene,
    ).len() + entries_of_kind(entries, AssetKind::Script).len() + entries_of_kind(
        entries,
        AssetKind::Config,
    ).len() + entries_of_kind(entries, AssetKind::Other).len()
}

/// Every asset has exactly one kind: the per-kind counts add up to the number of
/// assets.
pub proof fn lemma_kind_counts_cover_all(entries: Seq<AssetEntry>)
    ensures
        kind_count_total(entries) == entries.len(),
    decreases entries.len(),
{
    reveal(Seq::filter);
    if entries.len() > 0 {
        lemma_kind_counts_cover_all(entries.drop_last());
    }
}

/// The kind of an extension does not depend on its ASCII case.
pub proof fn lemma_kind_ignores_ascii_case(ext: Seq<char>)
    ensures
        kind_of_extension(ext) == kind_of_extension(ascii_lower(ext)),
{
    assert(ascii_lower(ascii_lower(ext)) =~= ascii_lower(ext));
}

/// The kind of a file whose name does not end in `.scn.ron` (in any ASCII case) is
/// the kind of the text after its last `.`, when that `.` is not the first character:
/// `hero.idle.png` is a texture.
pub proof fn lemma_kind_from_last_dot(name: Seq<char>, d: int)
    requires
        0 < d < name.len(),
        name[d] == '.',
        forall|j: int| d < j < name.len() ==> name[j] != '.',
        !(name.len() >= 8 && ascii_lower(name).subrange(name.len() - 8, name.len() as int)
            == ".scn.ron"@),
    ensures
        kind_of_file_name(name) == kind_of_extension(name.subrange(d + 1, name.len() as int)),
{
    lemma_last_index_bounds(name, '.');
    let k = last_index_of(name, '.');
    if k < d {
        assert(name[d] != '.');
    }
    if k > d {
        assert(name[k] == '.');
    }
    assert(k == d);
    reveal_strlit("..");
    if name == ".."@ {
        assert(name.subrange(d + 1, name.len() as int) =~= Seq::<char>::empty());
    }
}

/// A name ending in `.scn.ron`, in any ASCII case, is a scene file, whatever comes
/// before the suffix.
pub proof fn lemma_scene_suffix_wins(name: Seq<char>)
    requires
        name.len() >= 8,
        forall|k: int|
            0 <= k < 8 ==> ascii_lower_char(#[trigger] name[name.len() - 8 + k]) == ".scn.ron"@[k],
    ensures
        kind_of_file_name(name) == AssetKind::Scene,
{
    reveal_strlit(".scn.ron");
    let l = ascii_lower(name);
    assert forall|k: int| 0 <= k < 8 implies l.subrange(l.len() - 8, l.len() as int)[k] == ".scn.ron"@[k] by {
        assert(l[name.len() - 8 + k] == ascii_lower_char(name[name.len() - 8 + k]));
    }
    assert(l.subrange(l.len() - 8, l.len() as int) =~= ".scn.ron"@);
}

/// Each kind comes from exactly the extensions documented for it, compared without
/// regard to ASCII case; every other extension is `Other`.
pub proof fn lemma_documented_kinds(e: Seq<char>)
    ensures
        ({
            let l = ascii_lower(e);
            &&& (kind_of_extension(e) == AssetKind::Texture) <==> (l == "png"@ || l == "jpg"@ || l
                == "jpeg"@ || l == "hdr"@ || l == "ktx2"@ || l == "tga"@ || l == "bmp"@)
            &&& (kind_of_extension(e) == AssetKind::Model) <==> (l == "gltf"@ || l == "glb"@ || l
                == "obj"@ || l == "fbx"@)
            &&& (kind_of_extension(e) == AssetKind::Audio) <==> (l == "wav"@ || l == "mp3"@ || l
                == "ogg"@ || l == "flac"@)
            &&& (kind_of_extension(e) == AssetKind::Scene) <==> (l == "scn"@ || l == "scn.ron"@)
            &&& (kind_of_extension(e) == AssetKind::Script) <==> (l == "lua"@ || l == "rhai"@)
            &&& (kind_of_extension(e) == AssetKind::Config) <==> (l == "toml"@ || l == "json"@ || l
                == "ron"@ || l == "yaml"@ || l == "yml"@)
        }),
{
    reveal_strlit("png");
    reveal_strlit("jpg");
    reveal_strlit("jpeg");
    reveal_strlit("hdr");
    reveal_strlit("ktx2");
    reveal_strlit("tga");
    reveal_strlit("bmp");
    reveal_strlit("gltf");
    reveal_strlit("glb");
    reveal_strlit("obj");
    reveal_strlit("fbx");
    reveal_strlit("wav");
    reveal_strlit("mp3");
    reveal_strlit("ogg");
    reveal_strlit("flac");
    reveal_strlit("scn");
    reveal_strlit("scn.ron");
    reveal_strlit("lua");
    reveal_strlit("rhai");
    reveal_strlit("toml");
    reveal_strlit("json");
    reveal_strlit("ron");
    reveal_strlit("yaml");
    reveal_strlit("yml");
    assert("png"@[0] == 'p' && "png"@[1] == 'n');
    assert("jpg"@[0] == 'j' && "jpg"@[1] == 'p');
    assert("jpeg"@[0] == 'j' && "jpeg"@[1] == 'p');
    assert("hdr"@[0] == 'h' && "hdr"@[1] == 'd');
    assert("ktx2"@[0] == 'k' && "ktx2"@[1] == 't');
    assert("tga"@[0] == 't' && "tga"@[1] == 'g');
    assert("bmp"@[0] == 'b' && "bmp"@[1] == 'm');
    assert("gltf"@[0] == 'g' && "gltf"@[1] == 'l');
    assert("glb"@[0] == 'g' && "glb"@[1] == 'l');
    assert("obj"@[0] == 'o' && "obj"@[1] == 'b');
    assert("fbx"@[0] == 'f' && "fbx"@[1] == 'b');
    assert("wav"@[0] == 'w' && "wav"@[1] == 'a');
    assert("mp3"@[0] == 'm' && "mp3"@[1] == 'p');
    assert("ogg"@[0] == 'o' && "ogg"@[1] == 'g');
    assert("flac"@[0] == 'f' && "flac"@[1] == 'l');
    assert("scn"@[0] == 's' && "scn"@[1] == 'c');
    assert("scn.ron"@[0] == 's' && "scn.ron"@[1] == 'c');
    assert("lua"@[0] == 'l' && "lua"@[1] == 'u');
    assert("rhai"@[0] == 'r' && "rhai"@[1] == 'h');
    assert("toml"@[0] == 't' && "toml"@[1] == 'o');
    assert("json"@[0] == 'j' && "json"@[1] == 's');
    assert("ron"@[0] == 'r' && "ron"@[1] == 'o');
    assert("yaml"@[0] == 'y' && "yaml"@[1] == 'a');
    assert("yml"@[0] == 'y' && "yml"@[1] == 'm');
}

/// The asset database: a flat index of every file in `assets/`.
#[derive(Debug)]
pub struct AssetDatabase {
    /// All discovered entries, stably sorted by `relative_path`.
    pub entries: Vec<AssetEntry>,
    /// True if the last scan completed without error.
    pub last_scan_ok: bool,
    /// Time of the last scan.
    pub last_scan_at: Option<SystemTime>,
}

impl Default for AssetDatabase {
    fn default() -> (r: Self)
        ensures
            r.entries@ == Seq::<AssetEntry>::empty(),
            !r.last_scan_ok,
            r.last_scan_at is None,
    {
        AssetDatabase { entries: Vec::new(), last_scan_ok: false, last_scan_at: None }
    }
}

impl AssetDatabase {
    /// Replace the index with the files found by a completed directory walk, sorted
    /// by relative path, and record a successful scan at the current time.
    pub fn rescan(&mut self, found: Vec<AssetEntry>)
        ensures
            stably_sorted(final(self).entries@, found@),
            final(self).entries@.len() == found@.len(),
            final(self).last_scan_ok,
            final(self).last_scan_at is Some,
    {
        let sorted = sort_by_text_key(found);
        self.entries = sorted;
        self.last_scan_ok = true;
        self.last_scan_at = Some(current_time());
    }

    /// Record a scan that did not complete (the directory walk failed): the index and
    /// the time of the last scan stay as they were.
    pub fn scan_failed(&mut self)
        ensures
            !final(self).last_scan_ok,
            final(self).entries == old(self).entries,
            final(self).last_scan_at == old(self).last_scan_at,
    {
        self.last_scan_ok = false;
    }

    /// The number of assets of a given kind.
    pub fn count_of(&self, kind: AssetKind) -> (r: usize)
        ensures
            r == entries_of_kind(self.entries@, kind).len(),
    {
        let mut count: usize = 0;
        let mut i: usize = 0;
        while i < self.entries.len()
            invariant
                i <= self.entries@.len(),
                count == entries_of_kind(self.entries@.take(i as int), kind).len(),
                count <= i,
            decreases self.entries@.len() - i,
        {
            proof {
                reveal_with_fuel(Seq::filter, 1);
                assert(self.entries@.take(i + 1).drop_last() == self.entries@.take(i as int));
            }
            if self.entries[i].kind == kind {
                count = count + 1;
            }
            i = i + 1;
        }
        proof {
            assert(self.entries@.take(self.entries@.len() as int) == self.entries@);
        }
        count
    }

    /// The assets of a given kind, in index order.
    pub fn of_kind(&self, kind: AssetKind) -> (r: Vec<&AssetEntry>)
        ensures
            r@.len() == entries_of_kind(self.entries@, kind).len(),
            forall|i: int| 0 <= i < r@.len() ==> *r@[i] == entries_of_kind(self.entries@, kind)[i],
    {
        let mut out: Vec<&AssetEntry> = Vec::new();
        let mut i: usize = 0;
        while i < self.entries.len()
            invariant
                i <= self.entries@.len(),
                out@.len() == entries_of_kind(self.entries@.take(i as int), kind).len(),
                forall|j: int| 0 <= j < out@.len() ==> *out@[j] == entries_of_kind(
                    self.entries@.take(i as int),
                    kind,
                )[j],
            decreases self.entries@.len() - i,
        {
            proof {
                reveal_with_fuel(Seq::filter, 1);
                assert(self.entries@.take(i + 1).drop_last() == self.entries@.take(i as int));
            }
            if self.entries[i].kind == kind {
                out.push(&self.entries[i]);
            }
            i = i + 1;
        }
        proof {
            assert(self.entries@.take(self.entries@.len() as int) == self.entries@);
        }
        out
    }

    /// Total size of all assets, in bytes.
    pub fn total_size_bytes(&self) -> (r: u64)
        requires
            total_size(self.entries@) <= u64::MAX,
        ensures
            r == total_size(self.entries@),
    {
        let mut sum: u64 = 0;
        let mut i: usize = 0;
        while i < self.entries.len()
            invariant
                i <= self.entries@.len(),
                sum == total_size(self.entries@.take(i as int)),
                total_size(self.entries@) <= u64::MAX,
            decreases self.entries@.len() - i,
        {
            proof {
                assert(self.entries@.take(i + 1).drop_last() == self.entries@.take(i as int));
                lemma_total_size_prefix(self.entries@, i + 1);
            }
            sum = sum + self.entries[i].size_bytes;
            i = i + 1;
        }
        proof {
            assert(self.entries@.take(self.entries@.len() as int) == self.entries@);
        }
        sum
    }
}

} // verus!
