//! Where the game's assets come from: the bundles of a pack directory,
//! else a single `assets.pak`, else the plain file system.  The caller
//! looks at the disk and loads the packs; this module decides.
use vstd::prelude::*;
use crate::text::{append_chars, chars_of, string_of};

verus! {

/// The source that the assets are read from.
pub enum AssetSource {
    /// The bundles at these paths, the first taking precedence.
    Bundles(Vec<String>),
    /// The single pack `assets.pak`.
    Single,
    /// The plain files of the asset directory.
    Files,
}

/// The bundles, in the order they are looked for.
pub open spec fn bundle_names() -> Seq<Seq<char>> {
    seq!["data"@, "bgm"@, "voice"@, "se"@, "image"@, "video"@]
}

/// `file` in directory `dir`: the two joined by one `/`, or `file` alone
/// where `dir` is empty.
pub open spec fn join_path(dir: Seq<char>, file: Seq<char>) -> Seq<char> {
    if dir.len() == 0 {
        file
    } else if dir.last() == '/' {
        dir + file
    } else {
        dir + seq!['/'] + file
    }
}

/// The path of bundle `k` in directory `dir`: `<dir>/<name>.pak`.
pub open spec fn bundle_path(dir: Seq<char>, k: int) -> Seq<char> {
    join_path(dir, bundle_names()[k] + ".pak"@)
}

/// The paths of the first `k` bundles whose flag in `present` is set, in
/// order.
pub open spec fn kept_bundles(dir: Seq<char>, present: Seq<bool>, k: int) -> Seq<Seq<char>>
    decreases k,
{
    if k <= 0 {
        Seq::empty()
    } else if present[k - 1] {
        kept_bundles(dir, present, k - 1).push(bundle_path(dir, k - 1))
    } else {
        kept_bundles(dir, present, k - 1)
    }
}

pub open spec fn strings_view(v: Seq<String>) -> Seq<Seq<char>> {
    v.map_values(|s: String| s@)
}

fn bundle_name(k: usize) -> (s: &'static str)
    requires
        k < 6,
    ensures
        s@ == bundle_names()[k as int],
{
    proof {
        reveal_strlit("data");
        reveal_strlit("bgm");
        reveal_strlit("voice");
        reveal_strlit("se");
        reveal_strlit("image");
        reveal_strlit("video");
    }
    if k == 0 {
        "data"
    } else if k == 1 {
        "bgm"
    } else if k == 2 {
        "voice"
    } else if k == 3 {
        "se"
    } else if k == 4 {
        "image"
    } else {
        "video"
    }
}

fn bundle_path_exec(pak_dir: &str, k: usize) -> (r: String)
    requires
        k < 6,
    ensures
        r@ == bundle_path(pak_dir@, k as int),
{
    let mut v = chars_of(pak_dir);
    let n = v.len();
    if n > 0 && v[n - 1] != '/' {
        v.push('/');
    }
    let ghost dir_part = v@;
    append_chars(&mut v, &chars_of(bundle_name(k)));
    append_chars(&mut v, &chars_of(".pak"));
    proof {
        let f = bundle_names()[k as int] + ".pak"@;
        assert(v@ =~= dir_part + f);
        if n == 0 {
            assert(dir_part =~= Seq::<char>::empty());
            assert(v@ =~= f);
        } else if pak_dir@.last() == '/' {
            assert(dir_part == pak_dir@);
        } else {
            assert(dir_part =~= pak_dir@ + seq!['/']);
            assert(v@ =~= pak_dir@ + seq!['/'] + f);
        }
    }
    string_of(&v)
}

/// The six bundle paths of a pack directory, in order:
/// `<pak_dir>/data.pak`, `bgm`, `voice`, `se`, `image`, `video`.
pub fn bundle_paths(pak_dir: &str) -> (r: Vec<String>)
    ensures
        strings_view(r@) == Seq::new(6, |k: int| bundle_path(pak_dir@, k)),
{
    let mut r: Vec<String> = Vec::new();
    let mut k: usize = 0;
    while k < 6
        invariant
            k <= 6,
            strings_view(r@) == Seq::new(k as nat, |j: int| bundle_path(pak_dir@, j)),
        decreases 6 - k,
    {
        let p = bundle_path_exec(pak_dir, k);
        let ghost before = strings_view(r@);
        r.push(p);
        assert(strings_view(r@) =~= before.push(bundle_path(pak_dir@, k as int)));
        k = k + 1;
        assert(strings_view(r@) =~= Seq::new(k as nat, |j: int| bundle_path(pak_dir@, j)));
    }
    r
}

/// The bundle paths of `pak_dir` that are present: the six names in order,
/// each joined to `pak_dir` as `<name>.pak`, kept where `present` is set.
pub fn bundle_candidates(pak_dir: &str, present: &Vec<bool>) -> (r: Vec<String>)
    requires
        present@.len() == 6,
    ensures
        strings_view(r@) == kept_bundles(pak_dir@, present@, 6),
{
    let mut r: Vec<String> = Vec::new();
    let mut k: usize = 0;
    while k < 6
        invariant
            k <= 6,
            present@.len() == 6,
            strings_view(r@) == kept_bundles(pak_dir@, present@, k as int),
        decreases 6 - k,
    {
        if present[k] {
            let p = bundle_path_exec(pak_dir, k);
            r.push(p);
            assert(strings_view(r@) =~= kept_bundles(pak_dir@, present@, k as int).push(p@));
        }
        k = k + 1;
    }
    r
}

/// Chooses where assets are read from: the bundles, where the pack
/// directory is a directory, some bundle is present and they all loaded;
/// else the single `assets.pak`, where it exists and loaded; else the plain
/// files.
pub fn choose_asset_source(
    dir_is_dir: bool,
    bundles: Vec<String>,
    bundles_loaded: bool,
    single_exists: bool,
    single_loaded: bool,
) -> (r: AssetSource)
    ensures
        r == (if dir_is_dir && bundles@.len() > 0 && bundles_loaded {
            AssetSource::Bundles(bundles)
        } else if single_exists && single_loaded {
            AssetSource::Single
        } else {
            AssetSource::Files
        }),
{
    if dir_is_dir && bundles.len() > 0 && bundles_loaded {
        AssetSource::Bundles(bundles)
    } else if single_exists && single_loaded {
        AssetSource::Single
    } else {
        AssetSource::Files
    }
}

} // verus!
