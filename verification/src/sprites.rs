//! Small decisions about sprites: blend modes, character directories,
//! sprite file names and the arguments of debug tweens.
use vstd::prelude::*;
use crate::mapper::{split_spec, split_str};
use crate::strmap::StrMap;
use crate::text::{
    chars_of, ends_with_spec, ends_with_str, eq_str, slice_of, split_once_spec, split_once_str, starts_with_spec,
    starts_with_str, string_of, strip_prefix_spec, strip_prefix_str, tail, trim, trim_matches_char,
    trim_matches_char_spec, trim_spec, views,
};

verus! {

/// How a sprite is blended with what lies under it.
#[derive(Clone, Copy, Debug, PartialEq, Eq, Structural)]
pub enum SpriteBlendMode {
    Normal,
    Add,
    Multiply,
    Screen,
}

impl Default for SpriteBlendMode {
    fn default() -> (m: SpriteBlendMode)
        ensures
            m == SpriteBlendMode::Normal,
    {
        SpriteBlendMode::Normal
    }
}

pub open spec fn blend_mode_spec(s: Seq<char>) -> SpriteBlendMode {
    if s == "1"@ || s == "add"@ {
        SpriteBlendMode::Add
    } else if s == "2"@ || s == "mul"@ || s == "multiply"@ {
        SpriteBlendMode::Multiply
    } else if s == "3"@ || s == "screen"@ {
        SpriteBlendMode::Screen
    } else {
        SpriteBlendMode::Normal
    }
}

impl SpriteBlendMode {
    /// The blend mode an attribute names, by number or by name; anything
    /// else is normal blending.
    pub fn from_attr(s: &str) -> (m: SpriteBlendMode)
        ensures
            m == blend_mode_spec(s@),
    {
        let v = chars_of(s);
        if eq_str(&v, "1") || eq_str(&v, "add") {
            SpriteBlendMode::Add
        } else if eq_str(&v, "2") || eq_str(&v, "mul") || eq_str(&v, "multiply") {
            SpriteBlendMode::Multiply
        } else if eq_str(&v, "3") || eq_str(&v, "screen") {
            SpriteBlendMode::Screen
        } else {
            SpriteBlendMode::Normal
        }
    }
}

/// A sprite name without its `tati_` prefix.
pub fn strip_tati_prefix(s: &str) -> (r: String)
    ensures
        r@ == (match strip_prefix_spec(s@, "tati_"@) {
            Some(t) => t,
            None => s@,
        }),
{
    let v = chars_of(s);
    match strip_prefix_str(&v, "tati_") {
        Some(t) => string_of(&t),
        None => s.to_owned(),
    }
}

/// The directory of a character's sprites, by the two digits its id
/// starts with.
pub open spec fn char_dir_spec(prefix: Seq<char>) -> Option<Seq<char>> {
    if prefix == "01"@ { Some("001_eus"@) }
    else if prefix == "02"@ { Some("002_eri"@) }
    else if prefix == "03"@ { Some("003_ire"@) }
    else if prefix == "04"@ { Some("004_lic"@) }
    else if prefix == "05"@ { Some("005_fio"@) }
    else if prefix == "11"@ { Some("011_sis"@) }
    else if prefix == "12"@ { Some("012_mel"@) }
    else if prefix == "13"@ { Some("013_lav"@) }
    else if prefix == "14"@ { Some("014_cla"@) }
    else if prefix == "15"@ { Some("015_ris"@) }
    else if prefix == "16"@ { Some("016_iri"@) }
    else if prefix == "17"@ { Some("017_gau"@) }
    else if prefix == "32"@ { Some("032_luc"@) }
    else if prefix == "33"@ { Some("033_kur"@) }
    else if prefix == "34"@ { Some("034_sie"@) }
    else if prefix == "35"@ { Some("035_oz"@) }
    else if prefix == "36"@ { Some("036_gil"@) }
    else if prefix == "40"@ { Some("040_vel"@) }
    else if prefix == "41"@ { Some("041_val"@) }
    else if prefix == "42"@ { Some("042_kok"@) }
    else if prefix == "43"@ { Some("043_lan"@) }
    else if prefix == "44"@ { Some("044_nud"@) }
    else { None }
}

/// The directory of a character's sprites: the id's first two characters
/// name it.  The id's first two bytes must end on a character boundary.
pub fn char_dir(char_id: &str) -> (r: Option<String>)
    requires
        (char_id@.len() >= 2 && crate::text::byte_len(char_id@.subrange(0, 2)) == 2)
            || (char_id@.len() >= 1 && crate::text::byte_len(char_id@.subrange(0, 1)) == 2),
    ensures
        match r {
            Some(d) => char_id@.len() >= 2 && char_dir_spec(char_id@.subrange(0, 2)) == Some(d@),
            None => char_id@.len() < 2 || char_dir_spec(char_id@.subrange(0, 2)) is None,
        },
{
    let v = chars_of(char_id);
    if v.len() < 2 {
        return None;
    }
    let p = slice_of(&v, 0, 2);
    let d = if eq_str(&p, "01") { "001_eus" }
        else if eq_str(&p, "02") { "002_eri" }
        else if eq_str(&p, "03") { "003_ire" }
        else if eq_str(&p, "04") { "004_lic" }
        else if eq_str(&p, "05") { "005_fio" }
        else if eq_str(&p, "11") { "011_sis" }
        else if eq_str(&p, "12") { "012_mel" }
        else if eq_str(&p, "13") { "013_lav" }
        else if eq_str(&p, "14") { "014_cla" }
        else if eq_str(&p, "15") { "015_ris" }
        else if eq_str(&p, "16") { "016_iri" }
        else if eq_str(&p, "17") { "017_gau" }
        else if eq_str(&p, "32") { "032_luc" }
        else if eq_str(&p, "33") { "033_kur" }
        else if eq_str(&p, "34") { "034_sie" }
        else if eq_str(&p, "35") { "035_oz" }
        else if eq_str(&p, "36") { "036_gil" }
        else if eq_str(&p, "40") { "040_vel" }
        else if eq_str(&p, "41") { "041_val" }
        else if eq_str(&p, "42") { "042_kok" }
        else if eq_str(&p, "43") { "043_lan" }
        else if eq_str(&p, "44") { "044_nud" }
        else { return None; };
    Some(d.to_owned())
}

/// The key/value pairs of a debug tween's arguments, read in turn from
/// the first `k` comma-separated parts; a later key replaces an earlier
/// one, an empty part is skipped, and a part without `:` spoils them all.
pub open spec fn tween_pairs(parts: Seq<Seq<char>>, k: int) -> Option<Map<Seq<char>, Seq<char>>>
    decreases k,
{
    if k <= 0 {
        Some(Map::empty())
    } else {
        match tween_pairs(parts, k - 1) {
            None => None,
            Some(m) => {
                let p = trim_spec(parts[k - 1]);
                if p.len() == 0 {
                    Some(m)
                } else {
                    match split_once_spec(p, ":"@) {
                        None => None,
                        Some((key, val)) => Some(m.insert(
                            trim_matches_char_spec(trim_spec(key), '"'),
                            trim_matches_char_spec(trim_spec(val), '"'),
                        )),
                    }
                }
            },
        }
    }
}

/// A debug tween's arguments, `"tag" { key: value, ... }`: the tag and the
/// pairs; `None` where they do not have that shape.
pub open spec fn tween_args_spec(args: Seq<char>) -> Option<(Seq<char>, Map<Seq<char>, Seq<char>>)> {
    let a = trim_spec(args);
    match strip_prefix_spec(a, "\""@) {
        None => None,
        Some(a1) => match split_once_spec(a1, "\" "@) {
            None => None,
            Some((tag, rest)) => match strip_prefix_spec(trim_spec(rest), "{"@) {
                None => None,
                Some(r1) => if !ends_with_spec(r1, "}"@) {
                    None
                } else {
                    let inner = r1.subrange(0, r1.len() - 1);
                    if trim_spec(inner).len() == 0 {
                        Some((tag, Map::empty()))
                    } else {
                        let parts = split_spec(inner, ","@);
                        match tween_pairs(parts, parts.len() as int) {
                            None => None,
                            Some(m) => Some((tag, m)),
                        }
                    }
                },
            },
        },
    }
}

/// Reads the arguments of a debug tween command.
pub fn parse_tween_debug_args(args: &str) -> (r: Option<(String, StrMap<String>)>)
    ensures
        match r {
            None => tween_args_spec(args@) is None,
            Some((tag, m)) => m.wf() && tween_args_spec(args@) == Some((tag@, m.view().map_values(|v: String| v@))),
        },
{
    let a = trim(&chars_of(args));
    let a1 = match strip_prefix_str(&a, "\"") {
        Some(x) => x,
        None => return None,
    };
    let (tag, rest) = match split_once_str(&a1, "\" ") {
        Some(p) => p,
        None => return None,
    };
    let r1 = match strip_prefix_str(&trim(&rest), "{") {
        Some(x) => x,
        None => return None,
    };
    proof {
        reveal_strlit("}");
        reveal_strlit(",");
    }
    if !ends_with_str(&r1, "}") {
        return None;
    }
    let inner = slice_of(&r1, 0, r1.len() - 1);
    let mut m: StrMap<String> = StrMap::new();
    assert(m.view().map_values(|v: String| v@) =~= Map::<Seq<char>, Seq<char>>::empty());
    if trim(&inner).len() == 0 {
        return Some((string_of(&tag), m));
    }
    let parts = split_str(&inner, ",");
    let ghost ps = views(parts@);
    assert(ps == split_spec(inner@, ","@));
    assert(tween_args_spec(args@) == (match tween_pairs(ps, ps.len() as int) {
        None => None,
        Some(mm) => Some((tag@, mm)),
    }));
    let mut i: usize = 0;
    while i < parts.len()
        invariant
            i <= parts@.len(),
            ps == views(parts@),
            tween_args_spec(args@) == (match tween_pairs(ps, ps.len() as int) {
                None => None,
                Some(mm) => Some((tag@, mm)),
            }),
            m.wf(),
            tween_pairs(ps, i as int) == Some(m.view().map_values(|v: String| v@)),
        decreases parts@.len() - i,
    {
        let p = trim(&parts[i]);
        assert(ps[i as int] == parts@[i as int]@);
        if p.len() > 0 {
            match split_once_str(&p, ":") {
                None => {
                    proof {
                        lemma_tween_pairs_none(ps, i as int + 1, ps.len() as int);
                    }
                    return None;
                },
                Some((k, v)) => {
                    let key = trim_matches_char(&trim(&k), '"');
                    let val = trim_matches_char(&trim(&v), '"');
                    let ghost before = m.view().map_values(|v: String| v@);
                    m.insert(&key, string_of(&val));
                    assert(m.view().map_values(|v: String| v@) =~= before.insert(key@, val@));
                },
            }
        }
        i = i + 1;
    }
    Some((string_of(&tag), m))
}

proof fn lemma_tween_pairs_none(parts: Seq<Seq<char>>, k: int, n: int)
    requires
        tween_pairs(parts, k) is None,
        k <= n,
    ensures
        tween_pairs(parts, n) is None,
    decreases n - k,
{
    if k < n {
        lemma_tween_pairs_none(parts, k, n - 1);
    }
}

} // verus!
