//! Tables read out of the game's `system/csv.lua`.
//!
//! The tables are scanned character by character, while the pieces are cut
//! out of the text by byte offsets, exactly as the format's first reader did:
//! where a table holds non-ASCII text the two kinds of offsets differ, and a
//! cut that falls inside a character cannot be made.  Functions whose names
//! start with `try_` return `None` exactly where such a cut would be needed.
use vstd::prelude::*;
use vstd::utf8::{decode_utf8, decode_utf8_encode_utf8, encode_utf8, valid_utf8};
use crate::strmap::StrMap;
use crate::text::{
    byte_len, chars_of, concat, contains_spec, ends_with_spec, ends_with_str, eq_str, find, find_char,
    find_char_spec, find_spec, lemma_byte_len_subrange, lemma_find_char_from_bound, lemma_find_from_bound,
    lemma_len_le_byte_len, lines, lines_spec, nat_digits, parse_i32, parse_i32_spec, slice_of,
    starts_with_spec, starts_with_str, string_of, tail, trim, trim_end_matches_spec, trim_end_matches_str,
    trim_spec, trim_start_matches_spec, trim_start_matches_str, u64_chars, utf8_to_string, views, zero_pad,
    zero_pad_exec,
};

verus! {


// ------------------------------------------------------------------
// Lua values
// ------------------------------------------------------------------

/// A Lua string value without its `[[ ]]` or `" "` delimiters.
pub open spec fn lua_value_spec(s: Seq<char>) -> Seq<char> {
    let t = trim_spec(s);
    if starts_with_spec(t, "[["@) {
        trim_end_matches_spec(trim_start_matches_spec(t, "[["@), "]]"@)
    } else if starts_with_spec(t, "\""@) {
        trim_end_matches_spec(trim_start_matches_spec(t, "\""@), "\""@)
    } else {
        t
    }
}

/// Strips the delimiters of a Lua string value.
pub fn extract_lua_value(s: &str) -> (r: String)
    ensures
        r@ == lua_value_spec(s@),
{
    let t = trim(&chars_of(s));
    let v = if starts_with_str(&t, "[[") {
        trim_end_matches_str(&trim_start_matches_str(&t, "[["), "]]")
    } else if starts_with_str(&t, "\"") {
        trim_end_matches_str(&trim_start_matches_str(&t, "\""), "\"")
    } else {
        t
    };
    string_of(&v)
}

// ------------------------------------------------------------------
// Scanning tables
// ------------------------------------------------------------------

/// The text of the bytes `b[lo..hi]`, where that range is in bounds and
/// cuts no character apart.
pub open spec fn byte_slice(b: Seq<u8>, lo: int, hi: int) -> Option<Seq<char>> {
    if 0 <= lo <= hi <= b.len() && valid_utf8(b.subrange(lo, hi)) {
        Some(decode_utf8(b.subrange(lo, hi)))
    } else {
        None
    }
}

fn byte_slice_exec(b: &[u8], lo: usize, hi: usize) -> (r: Option<String>)
    ensures
        match r {
            Some(s) => byte_slice(b@, lo as int, hi as int) == Some(s@) && byte_len(s@) == hi - lo,
            None => byte_slice(b@, lo as int, hi as int) is None,
        },
{
    let n = b.len();
    if lo > hi || hi > n {
        return None;
    }
    let mut v: Vec<u8> = Vec::new();
    let mut i = lo;
    while i < hi
        invariant
            lo <= i <= hi <= b@.len(),
            v@ == b@.subrange(lo as int, i as int),
        decreases hi - i,
    {
        v.push(b[i]);
        i = i + 1;
        assert(v@ =~= b@.subrange(lo as int, i as int));
    }
    let r = utf8_to_string(v.as_slice());
    proof {
        if r is Some {
            decode_utf8_encode_utf8(v@);
        }
    }
    r
}

pub open spec fn opens_long(c: Seq<char>, i: int) -> bool {
    c[i] == '[' && i + 1 < c.len() && c[i + 1] == '['
}

pub open spec fn closes_long(c: Seq<char>, i: int) -> bool {
    c[i] == ']' && i + 1 < c.len() && c[i + 1] == ']'
}

/// The character index of the `}` that closes a table, scanning from `i`
/// at brace depth `depth`; `[[ ... ]]` long strings are skipped.
pub open spec fn close_scan(c: Seq<char>, i: int, depth: int, in_long: bool) -> Option<int>
    decreases c.len() - i,
{
    if i < 0 || i >= c.len() {
        None
    } else if opens_long(c, i) && !in_long {
        close_scan(c, i + 2, depth, true)
    } else if closes_long(c, i) && in_long {
        close_scan(c, i + 2, depth, false)
    } else if in_long {
        close_scan(c, i + 1, depth, in_long)
    } else if c[i] == '{' {
        close_scan(c, i + 1, depth + 1, in_long)
    } else if c[i] == '}' {
        if depth - 1 == 0 {
            Some(i)
        } else {
            close_scan(c, i + 1, depth - 1, in_long)
        }
    } else {
        close_scan(c, i + 1, depth, in_long)
    }
}

/// The first index of byte `x`.
pub open spec fn find_byte_from(b: Seq<u8>, x: u8, i: int) -> Option<int>
    decreases b.len() - i,
{
    if i < 0 || i >= b.len() {
        None
    } else if b[i] == x {
        Some(i)
    } else {
        find_byte_from(b, x, i + 1)
    }
}

/// The body of the table that follows `marker`: from the first `{` after
/// the marker (a byte offset, which also serves as the character index
/// where scanning starts) to its closing `}` (a character index, which also
/// serves as the byte offset where the body is cut).  `Some(None)` where
/// there is no such table; `None` where the cut splits a character.
pub open spec fn table_body_spec(content: Seq<char>, marker: Seq<char>) -> Option<Option<Seq<char>>> {
    match find_spec(content, marker) {
        None => Some(None),
        Some(st) => if 0 <= st && st + marker.len() <= content.len() {
            let after = content.subrange(st + marker.len(), content.len() as int);
            let b = encode_utf8(after);
            match find_byte_from(b, 0x7B, 0) {
                None => Some(None),
                Some(bs) => match close_scan(after, bs + 1, 1, false) {
                    None => Some(None),
                    Some(i) => match byte_slice(b, bs + 1, i) {
                        Some(body) => Some(Some(body)),
                        None => None,
                    },
                },
            }
        } else {
            Some(None)
        },
    }
}

/// Reads the body of the table after `marker`: `Some(None)` where there is
/// no such table, `None` where the body cannot be cut out of the text.
pub fn try_extract_table_body(content: &str, marker: &str) -> (r: Option<Option<String>>)
    requires
        byte_len(content@) < i32::MAX,
    ensures
        match r {
            None => table_body_spec(content@, marker@) is None,
            Some(None) => table_body_spec(content@, marker@) == Some(None::<Seq<char>>),
            Some(Some(s)) => table_body_spec(content@, marker@) == Some(Some(s@)),
        },
        r matches Some(Some(s)) ==> byte_len(s@) <= byte_len(content@),
{
    let c = chars_of(content);
    proof {
        lemma_len_le_byte_len(content@);
    }
    let m = chars_of(marker);
    let st = match find(&c, &m) {
        Some(s) => s,
        None => return Some(None),
    };
    proof {
        lemma_find_from_bound(c@, m@, 0);
    }
    let after = tail(&c, st + m.len());
    proof {
        lemma_byte_len_subrange(c@, st + m@.len(), c@.len() as int);
    }
    let after_s = string_of(&after);
    let b = after_s.as_str().as_bytes();
    let nb = b.len();
    let mut bs: usize = 0;
    while bs < nb && b[bs] != 0x7B
        invariant
            nb == b@.len(),
            bs <= nb,
            find_byte_from(b@, 0x7B, 0) == find_byte_from(b@, 0x7B, bs as int),
        decreases nb - bs,
    {
        bs = bs + 1;
    }
    if bs >= nb {
        return Some(None);
    }
    assert(find_byte_from(b@, 0x7B, 0) == Some(bs as int));
    let nc = after.len();
    let mut i: usize = bs + 1;
    let mut depth: i32 = 1;
    let mut in_long = false;
    while i < nc
        invariant
            nc == after@.len(),
            nc < i32::MAX,
            -(i as int) <= depth <= i as int + 1,
            m@ == marker@,
            c@ == content@,
            find_spec(content@, m@) == Some(st as int),
            st + m@.len() <= content@.len(),
            after@ == content@.subrange(st + m@.len(), content@.len() as int),
            byte_len(after@) <= byte_len(content@),
            b@ == encode_utf8(after@),
            find_byte_from(b@, 0x7B, 0) == Some(bs as int),
            close_scan(after@, bs + 1, 1, false) == close_scan(after@, i as int, depth as int, in_long),
        decreases nc - i,
    {
        let ch = after[i];
        if ch == '[' && i + 1 < nc && after[i + 1] == '[' && !in_long {
            in_long = true;
            i = i + 2;
        } else if ch == ']' && i + 1 < nc && after[i + 1] == ']' && in_long {
            in_long = false;
            i = i + 2;
        } else if in_long {
            i = i + 1;
        } else if ch == '{' {
            depth = depth + 1;
            i = i + 1;
        } else if ch == '}' {
            depth = depth - 1;
            if depth == 0 {
                return match byte_slice_exec(b, bs + 1, i) {
                    Some(body) => Some(Some(body)),
                    None => None,
                };
            }
            i = i + 1;
        } else {
            i = i + 1;
        }
    }
    Some(None)
}

/// The body of the table after `marker`, where there is one.
pub fn extract_table_body(content: &str, marker: &str) -> (r: Option<String>)
    requires
        byte_len(content@) < i32::MAX,
        table_body_spec(content@, marker@) is Some,
    ensures
        match r {
            None => table_body_spec(content@, marker@) == Some(None::<Seq<char>>),
            Some(s) => table_body_spec(content@, marker@) == Some(Some(s@)),
        },
{
    match try_extract_table_body(content, marker) {
        Some(r) => r,
        None => None,
    }
}

/// The same as `extract_table_body`; the `init` table is read through it.
pub fn extract_table_body_raw(content: &str, marker: &str) -> (r: Option<String>)
    requires
        byte_len(content@) < i32::MAX,
        table_body_spec(content@, marker@) is Some,
    ensures
        match r {
            None => table_body_spec(content@, marker@) == Some(None::<Seq<char>>),
            Some(s) => table_body_spec(content@, marker@) == Some(Some(s@)),
        },
{
    extract_table_body(content, marker)
}

/// The entries of a table body (or the items of a value list): the text
/// between top-level commas, each trimmed, from character index `i` on, with
/// `start` the character index (used as a byte offset) where the current
/// piece began.  `keep` decides which pieces stay.  `None` where a cut
/// splits a character.
pub open spec fn pieces_scan(
    c: Seq<char>,
    b: Seq<u8>,
    i: int,
    depth: int,
    start: int,
    in_long: bool,
    quotes_empty: bool,
    acc: Seq<Seq<char>>,
) -> Option<Seq<Seq<char>>>
    decreases c.len() - i,
{
    if i < 0 || i >= c.len() {
        match byte_slice(b, start, b.len() as int) {
            None => None,
            Some(r) => Some(keep_piece(acc, trim_spec(r), quotes_empty)),
        }
    } else if opens_long(c, i) && !in_long {
        pieces_scan(c, b, i + 2, depth, start, true, quotes_empty, acc)
    } else if closes_long(c, i) && in_long {
        pieces_scan(c, b, i + 2, depth, start, false, quotes_empty, acc)
    } else if in_long {
        pieces_scan(c, b, i + 1, depth, start, in_long, quotes_empty, acc)
    } else if c[i] == '{' {
        pieces_scan(c, b, i + 1, depth + 1, start, in_long, quotes_empty, acc)
    } else if c[i] == '}' {
        pieces_scan(c, b, i + 1, depth - 1, start, in_long, quotes_empty, acc)
    } else if c[i] == ',' && depth == 0 {
        match byte_slice(b, start, i) {
            None => None,
            Some(p) => pieces_scan(c, b, i + 1, depth, i + 1, in_long, quotes_empty, keep_piece(acc, trim_spec(p), quotes_empty)),
        }
    } else {
        pieces_scan(c, b, i + 1, depth, start, in_long, quotes_empty, acc)
    }
}

/// Adds a piece unless it is empty (or, with `quotes_empty`, `""`).
pub open spec fn keep_piece(acc: Seq<Seq<char>>, p: Seq<char>, quotes_empty: bool) -> Seq<Seq<char>> {
    if p.len() == 0 || (quotes_empty && p == "\"\""@) {
        acc
    } else {
        acc.push(p)
    }
}

/// The top-level entries of a table body.
pub open spec fn table_entries_spec(body: Seq<char>) -> Option<Seq<Seq<char>>> {
    pieces_scan(body, encode_utf8(body), 0, 0, 0, false, false, Seq::empty())
}

/// The top-level items of a value list, without `""` items.
pub open spec fn top_level_spec(s: Seq<char>) -> Option<Seq<Seq<char>>> {
    pieces_scan(s, encode_utf8(s), 0, 0, 0, false, true, Seq::empty())
}

fn keep_piece_exec(acc: &mut Vec<Vec<char>>, p: Vec<char>, quotes_empty: bool)
    ensures
        views(final(acc)@) == keep_piece(views(old(acc)@), p@, quotes_empty),
        final(acc)@ == old(acc)@ || final(acc)@ == old(acc)@.push(p),
{
    if p.len() == 0 || (quotes_empty && eq_str(&p, "\"\"")) {
        return;
    }
    let ghost before = views(acc@);
    acc.push(p);
    assert(views(acc@) =~= before.push(p@));
}

/// Every piece takes no more bytes than `bound`.
pub open spec fn pieces_within(v: Seq<Vec<char>>, bound: nat) -> bool {
    forall|k: int| 0 <= k < v.len() ==> byte_len(#[trigger] v[k]@) <= bound
}

fn pieces(s: &str, quotes_empty: bool) -> (r: Option<Vec<Vec<char>>>)
    requires
        byte_len(s@) < i32::MAX,
    ensures
        match r {
            None => pieces_scan(s@, encode_utf8(s@), 0, 0, 0, false, quotes_empty, Seq::empty()) is None,
            Some(v) => pieces_scan(s@, encode_utf8(s@), 0, 0, 0, false, quotes_empty, Seq::empty()) == Some(views(v@)),
        },
        r matches Some(v) ==> pieces_within(v@, byte_len(s@)),
{
    let c = chars_of(s);
    proof {
        lemma_len_le_byte_len(s@);
    }
    let b = s.as_bytes();
    let nc = c.len();
    let mut acc: Vec<Vec<char>> = Vec::new();
    let mut depth: i32 = 0;
    let mut start: usize = 0;
    let mut in_long = false;
    let mut i: usize = 0;
    assert(views(acc@) =~= Seq::<Seq<char>>::empty());
    while i < nc
        invariant
            nc == c@.len(),
            c@ == s@,
            b@ == encode_utf8(s@),
            nc < i32::MAX,
            i <= nc + 2,
            start <= i,
            -(i as int) <= depth <= i as int,
            pieces_within(acc@, byte_len(s@)),
            pieces_scan(c@, b@, 0, 0, 0, false, quotes_empty, Seq::empty())
                == pieces_scan(c@, b@, i as int, depth as int, start as int, in_long, quotes_empty, views(acc@)),
        decreases nc - i,
    {
        let ch = c[i];
        if ch == '[' && i + 1 < nc && c[i + 1] == '[' && !in_long {
            in_long = true;
            i = i + 2;
        } else if ch == ']' && i + 1 < nc && c[i + 1] == ']' && in_long {
            in_long = false;
            i = i + 2;
        } else if in_long {
            i = i + 1;
        } else if ch == '{' {
            depth = depth + 1;
            i = i + 1;
        } else if ch == '}' {
            depth = depth - 1;
            i = i + 1;
        } else if ch == ',' && depth == 0 {
            match byte_slice_exec(b, start, i) {
                None => return None,
                Some(p) => {
                    let t = trim(&chars_of(p.as_str()));
                    keep_piece_exec(&mut acc, t, quotes_empty);
                },
            }
            i = i + 1;
            start = i;
        } else {
            i = i + 1;
        }
    }
    match byte_slice_exec(b, start, b.len()) {
        None => None,
        Some(r) => {
            let t = trim(&chars_of(r.as_str()));
            keep_piece_exec(&mut acc, t, quotes_empty);
            Some(acc)
        },
    }
}

/// Splits a table body at its top-level commas; `None` where a piece
/// cannot be cut out of the text.
pub fn try_split_table_entries(body: &str) -> (r: Option<Vec<Vec<char>>>)
    requires
        byte_len(body@) < i32::MAX,
    ensures
        match r {
            None => table_entries_spec(body@) is None,
            Some(v) => table_entries_spec(body@) == Some(views(v@)),
        },
        r matches Some(v) ==> pieces_within(v@, byte_len(body@)),
{
    pieces(body, false)
}

/// Splits a value list at its top-level commas, dropping `""` items;
/// `None` where a piece cannot be cut out of the text.
pub fn try_split_top_level(s: &str) -> (r: Option<Vec<Vec<char>>>)
    requires
        byte_len(s@) < i32::MAX,
    ensures
        match r {
            None => top_level_spec(s@) is None,
            Some(v) => top_level_spec(s@) == Some(views(v@)),
        },
        r matches Some(v) ==> pieces_within(v@, byte_len(s@)),
{
    pieces(s, true)
}

pub open spec fn strings_view(v: Seq<String>) -> Seq<Seq<char>> {
    v.map_values(|s: String| s@)
}

fn to_strings(v: &Vec<Vec<char>>) -> (r: Vec<String>)
    ensures
        strings_view(r@) == views(v@),
{
    let mut r: Vec<String> = Vec::new();
    let mut i: usize = 0;
    while i < v.len()
        invariant
            i <= v@.len(),
            strings_view(r@) == views(v@).subrange(0, i as int),
        decreases v@.len() - i,
    {
        let ghost before = strings_view(r@);
        let t = string_of(&v[i]);
        r.push(t);
        assert(strings_view(r@) =~= before.push(v@[i as int]@));
        assert(views(v@).subrange(0, i + 1) =~= views(v@).subrange(0, i as int).push(v@[i as int]@));
        i = i + 1;
    }
    assert(views(v@).subrange(0, v@.len() as int) =~= views(v@));
    r
}

/// The entries of a table body: the text between top-level commas, each
/// trimmed, empty ones left out.
pub fn split_table_entries(body: &str) -> (r: Vec<String>)
    requires
        byte_len(body@) < i32::MAX,
        table_entries_spec(body@) is Some,
    ensures
        table_entries_spec(body@) == Some(strings_view(r@)),
{
    match try_split_table_entries(body) {
        Some(v) => to_strings(&v),
        None => Vec::new(),
    }
}

/// The items of a value list: the text between top-level commas, each
/// trimmed, empty and `""` items left out.
pub fn split_top_level(s: &str) -> (r: Vec<String>)
    requires
        byte_len(s@) < i32::MAX,
        top_level_spec(s@) is Some,
    ensures
        top_level_spec(s@) == Some(strings_view(r@)),
{
    match try_split_top_level(s) {
        Some(v) => to_strings(&v),
        None => Vec::new(),
    }
}

// ------------------------------------------------------------------
// Key/value entries: `["key"] = { v1, v2, ... }`
// ------------------------------------------------------------------

/// The key and values of an entry `["key"] = { ... }` (or `[[[key]]] =`).
/// `Some(None)` where the entry has another shape; `None` where reading
/// it would cut a string apart (a key of a lone `"`, or a value list that
/// cannot be cut).
pub open spec fn key_value_spec(entry: Seq<char>) -> Option<Option<(Seq<char>, Seq<Seq<char>>)>> {
    let e = trim_spec(entry);
    match find_char_spec(e, '=') {
        None => Some(None),
        Some(p) => if !(0 <= p < e.len()) {
            Some(None)
        } else {
            let key_part = trim_spec(e.subrange(0, p));
            let rest = trim_spec(e.subrange(p + 1, e.len() as int));
            if !(starts_with_spec(key_part, "["@) && ends_with_spec(key_part, "]"@)) || key_part.len() < 2 {
                Some(None)
            } else {
                let inner = key_part.subrange(1, key_part.len() - 1);
                let key: Option<Option<Seq<char>>> = if starts_with_spec(inner, "\""@) && ends_with_spec(inner, "\""@) {
                    if inner.len() < 2 { None } else { Some(Some(inner.subrange(1, inner.len() - 1))) }
                } else if starts_with_spec(inner, "[["@) && ends_with_spec(inner, "]]"@) {
                    if inner.len() < 4 { None } else { Some(Some(inner.subrange(2, inner.len() - 2))) }
                } else {
                    Some(None)
                };
                match key {
                    None => None,
                    Some(None) => Some(None),
                    Some(Some(k)) => if !starts_with_spec(rest, "{"@) || !ends_with_spec(rest, "}"@) || rest.len() < 2 {
                        Some(None)
                    } else {
                        match top_level_spec(rest.subrange(1, rest.len() - 1)) {
                            None => None,
                            Some(vals) => Some(Some((k, vals))),
                        }
                    },
                }
            }
        },
    }
}

/// Reads an entry `["key"] = { v1, v2, ... }`.
pub fn try_parse_key_value_table(entry: &Vec<char>) -> (r: Option<Option<(String, Vec<Vec<char>>)>>)
    requires
        byte_len(entry@) < i32::MAX,
    ensures
        match r {
            None => key_value_spec(entry@) is None,
            Some(None) => key_value_spec(entry@) == Some(None::<(Seq<char>, Seq<Seq<char>>)>),
            Some(Some((k, v))) => key_value_spec(entry@) == Some(Some((k@, views(v@)))),
        },
{
    proof {
        reveal_strlit("\"");
        reveal_strlit("[[");
        reveal_strlit("]]");
        reveal_strlit("[");
        reveal_strlit("]");
    }
    let e = trim(entry);
    let ne = e.len();
    let p = match find_char(&e, '=') {
        Some(p) => p,
        None => return Some(None),
    };
    proof {
        lemma_find_char_from_bound(e@, '=', 0);
    }
    let key_part = trim(&slice_of(&e, 0, p));
    let rest = trim(&tail(&e, p + 1));
    if !(starts_with_str(&key_part, "[") && ends_with_str(&key_part, "]")) || key_part.len() < 2 {
        return Some(None);
    }
    let inner = slice_of(&key_part, 1, key_part.len() - 1);
    let key = if starts_with_str(&inner, "\"") && ends_with_str(&inner, "\"") {
        if inner.len() < 2 {
            return None;
        }
        slice_of(&inner, 1, inner.len() - 1)
    } else if starts_with_str(&inner, "[[") && ends_with_str(&inner, "]]") {
        if inner.len() < 4 {
            return None;
        }
        slice_of(&inner, 2, inner.len() - 2)
    } else {
        return Some(None);
    };
    if !starts_with_str(&rest, "{") || !ends_with_str(&rest, "}") || rest.len() < 2 {
        return Some(None);
    }
    proof {
        lemma_byte_len_subrange(e@, p + 1, e@.len() as int);
        lemma_byte_len_subrange(rest@, 1, rest@.len() - 1);
    }
    let list = string_of(&slice_of(&rest, 1, rest.len() - 1));
    match try_split_top_level(list.as_str()) {
        None => None,
        Some(vals) => Some(Some((string_of(&key), vals))),
    }
}

/// The key and the values of an entry `["key"] = { v1, v2, ... }`, where
/// the entry has that shape.
pub fn parse_key_value_table(entry: &str) -> (r: Option<(String, Vec<String>)>)
    requires
        byte_len(entry@) < i32::MAX,
        key_value_spec(entry@) is Some,
    ensures
        match r {
            None => key_value_spec(entry@) == Some(None::<(Seq<char>, Seq<Seq<char>>)>),
            Some((k, v)) => key_value_spec(entry@) == Some(Some((k@, strings_view(v@)))),
        },
{
    let e = chars_of(entry);
    match try_parse_key_value_table(&e) {
        Some(Some((k, v))) => Some((k, to_strings(&v))),
        _ => None,
    }
}

// ------------------------------------------------------------------
// The tables
// ------------------------------------------------------------------

/// A scene of the scene-replay table: the script file and its label.
pub struct SceneEntry {
    pub file: String,
    pub label: String,
}

/// Everything read out of `csv.lua`.
pub struct GameConfig {
    pub cg_sets: StrMap<Vec<String>>,
    pub bgm_files: StrMap<String>,
    pub scene_jumps: StrMap<Vec<SceneEntry>>,
    pub fg_paths: StrMap<String>,
    pub init_paths: StrMap<String>,
}

pub open spec fn scenes_view(v: Seq<SceneEntry>) -> Seq<(Seq<char>, Seq<char>)> {
    v.map_values(|e: SceneEntry| (e.file@, e.label@))
}

/// The tables of a configuration, with every string as its characters.
pub struct GameConfigV {
    pub cg_sets: Map<Seq<char>, Seq<Seq<char>>>,
    pub bgm_files: Map<Seq<char>, Seq<char>>,
    pub scene_jumps: Map<Seq<char>, Seq<(Seq<char>, Seq<char>)>>,
    pub fg_paths: Map<Seq<char>, Seq<char>>,
    pub init_paths: Map<Seq<char>, Seq<char>>,
}

impl GameConfig {
    pub open spec fn wf(&self) -> bool {
        self.cg_sets.wf() && self.bgm_files.wf() && self.scene_jumps.wf() && self.fg_paths.wf() && self.init_paths.wf()
    }

    pub open spec fn view(&self) -> GameConfigV {
        GameConfigV {
            cg_sets: self.cg_sets.view().map_values(|v: Vec<String>| strings_view(v@)),
            bgm_files: self.bgm_files.view().map_values(|s: String| s@),
            scene_jumps: self.scene_jumps.view().map_values(|v: Vec<SceneEntry>| scenes_view(v@)),
            fg_paths: self.fg_paths.view().map_values(|s: String| s@),
            init_paths: self.init_paths.view().map_values(|s: String| s@),
        }
    }

    /// A configuration with every table empty.
    pub fn new() -> (c: GameConfig)
        ensures
            c.wf(),
            c.view() == empty_config(),
    {
        let c = GameConfig {
            cg_sets: StrMap::new(),
            bgm_files: StrMap::new(),
            scene_jumps: StrMap::new(),
            fg_paths: StrMap::new(),
            init_paths: StrMap::new(),
        };
        assert(c.view().cg_sets =~= Map::empty());
        assert(c.view().bgm_files =~= Map::empty());
        assert(c.view().scene_jumps =~= Map::empty());
        assert(c.view().fg_paths =~= Map::empty());
        assert(c.view().init_paths =~= Map::empty());
        c
    }
}

pub open spec fn empty_config() -> GameConfigV {
    GameConfigV {
        cg_sets: Map::empty(),
        bgm_files: Map::empty(),
        scene_jumps: Map::empty(),
        fg_paths: Map::empty(),
        init_paths: Map::empty(),
    }
}

/// The entries of the table after `marker`: `Some(None)` where there is no
/// such table, `None` where reading it would cut a string apart.
pub open spec fn table_entries_after(content: Seq<char>, marker: Seq<char>) -> Option<Option<Seq<Seq<char>>>> {
    match table_body_spec(content, marker) {
        None => None,
        Some(None) => Some(None),
        Some(Some(body)) => match table_entries_spec(body) {
            None => None,
            Some(es) => Some(Some(es)),
        },
    }
}

/// The files of a CG set: the values that are neither empty, `""`, nor
/// numbers, without their delimiters, where that leaves something.
pub open spec fn cg_files(vals: Seq<Seq<char>>) -> Seq<Seq<char>>
    decreases vals.len(),
{
    if vals.len() == 0 {
        Seq::empty()
    } else {
        let prev = cg_files(vals.drop_last());
        let s = trim_spec(vals.last());
        if s.len() == 0 || s == "\"\""@ || parse_i32_spec(s) is Some {
            prev
        } else {
            let cleaned = lua_value_spec(s);
            if cleaned.len() == 0 { prev } else { prev.push(cleaned) }
        }
    }
}

/// What one entry adds to a table.
pub open spec fn table_step(which: int, c: GameConfigV, key: Seq<char>, vals: Seq<Seq<char>>) -> GameConfigV {
    if which == 0 {
        let files = cg_files(vals);
        if files.len() > 0 { GameConfigV { cg_sets: c.cg_sets.insert(key, files), ..c } } else { c }
    } else if which == 1 {
        if vals.len() >= 2 {
            let ogg = lua_value_spec(trim_spec(vals[1]));
            if ogg.len() > 0 { GameConfigV { bgm_files: c.bgm_files.insert(key, ogg), ..c } } else { c }
        } else {
            c
        }
    } else if which == 2 {
        if vals.len() >= 3 {
            let file_num = trim_spec(vals[2]);
            let label = if vals.len() >= 4 { lua_value_spec(trim_spec(vals[3])) } else { Seq::empty() };
            if file_num.len() > 0 && file_num != "\"\""@ {
                let num = match parse_i32_spec(file_num) { Some(v) => v, None => 0 };
                let old_list = if c.scene_jumps.dom().contains(key) { c.scene_jumps[key] } else { Seq::empty() };
                GameConfigV { scene_jumps: c.scene_jumps.insert(key, old_list.push((pad5(num), label))), ..c }
            } else {
                c
            }
        } else {
            c
        }
    } else {
        if vals.len() > 0 {
            let dir = lua_value_spec(trim_spec(vals[0]));
            if dir.len() > 0 && ends_with_spec(dir, "/"@) {
                GameConfigV { fg_paths: c.fg_paths.insert(key, trim_end_matches_spec(dir, "/"@)), ..c }
            } else {
                c
            }
        } else {
            c
        }
    }
}

/// `{:05}` of an `i32`: zero-padded to five characters, the sign included.
pub open spec fn pad5(v: int) -> Seq<char> {
    if v < 0 {
        seq!['-'] + zero_pad(nat_digits((-v) as nat), 4)
    } else {
        zero_pad(nat_digits(v as nat), 5)
    }
}

/// The configuration after the first `k` entries; `None` where an entry
/// cannot be read without cutting a string apart.
pub open spec fn table_fold(which: int, c: GameConfigV, es: Seq<Seq<char>>, k: int) -> Option<GameConfigV>
    decreases k,
{
    if k <= 0 {
        Some(c)
    } else {
        match table_fold(which, c, es, k - 1) {
            None => None,
            Some(c1) => match key_value_spec(es[k - 1]) {
                None => None,
                Some(None) => Some(c1),
                Some(Some((key, vals))) => Some(table_step(which, c1, key, vals)),
            },
        }
    }
}

pub open spec fn table_marker(which: int) -> Seq<char> {
    if which == 0 {
        "csv.extra_cgmode ="@
    } else if which == 1 {
        "csv.extra_bgm ="@
    } else if which == 2 {
        "csv.extra_event ="@
    } else {
        "csv.fg ="@
    }
}

/// A table read into the configuration: the CG sets (0), the BGM files
/// (1), the scene jumps (2) or the sprite directories (3).
pub open spec fn table_spec(which: int, content: Seq<char>, c: GameConfigV) -> Option<GameConfigV> {
    match table_entries_after(content, table_marker(which)) {
        None => None,
        Some(None) => Some(c),
        Some(Some(es)) => table_fold(which, c, es, es.len() as int),
    }
}

fn table_marker_str(which: u8) -> (s: &'static str)
    requires
        which < 4,
    ensures
        s@ == table_marker(which as int),
{
    if which == 0 {
        "csv.extra_cgmode ="
    } else if which == 1 {
        "csv.extra_bgm ="
    } else if which == 2 {
        "csv.extra_event ="
    } else {
        "csv.fg ="
    }
}

fn pad5_exec(v: i32) -> (r: Vec<char>)
    ensures
        r@ == pad5(v as int),
{
    if v < 0 {
        let mag = (0 - (v as i64)) as u64;
        let d = zero_pad_exec(&u64_chars(mag), 4);
        let mut m: Vec<char> = Vec::new();
        m.push('-');
        assert(m@ =~= seq!['-']);
        concat(&m, &d)
    } else {
        zero_pad_exec(&u64_chars(v as u64), 5)
    }
}

fn cg_files_exec(vals: &Vec<Vec<char>>) -> (r: Vec<String>)
    ensures
        strings_view(r@) == cg_files(views(vals@)),
{
    let mut r: Vec<String> = Vec::new();
    let mut i: usize = 0;
    assert(strings_view(r@) =~= Seq::<Seq<char>>::empty());
    while i < vals.len()
        invariant
            i <= vals@.len(),
            strings_view(r@) == cg_files(views(vals@).subrange(0, i as int)),
        decreases vals@.len() - i,
    {
        let ghost pre = views(vals@).subrange(0, i as int);
        assert(views(vals@).subrange(0, i + 1).drop_last() =~= pre);
        assert(views(vals@).subrange(0, i + 1).last() == vals@[i as int]@);
        let s = trim(&vals[i]);
        if !(s.len() == 0 || eq_str(&s, "\"\"") || parse_i32(&s).is_some()) {
            let ss = string_of(&s);
            let cleaned = extract_lua_value(ss.as_str());
            let cc = chars_of(cleaned.as_str());
            if cc.len() > 0 {
                let ghost before = strings_view(r@);
                r.push(cleaned);
                assert(strings_view(r@) =~= before.push(cc@));
            }
        }
        i = i + 1;
    }
    assert(views(vals@).subrange(0, vals@.len() as int) =~= views(vals@));
    r
}


/// The characters of a trimmed value without its delimiters.
fn clean_value(v: &Vec<char>) -> (r: String)
    ensures
        r@ == lua_value_spec(trim_spec(v@)),
{
    let t = string_of(&trim(v));
    extract_lua_value(t.as_str())
}

fn apply_cg(config: &mut GameConfig, key: &Vec<char>, vals: &Vec<Vec<char>>)
    requires
        old(config).wf(),
    ensures
        final(config).wf(),
        final(config).view() == table_step(0, old(config).view(), key@, views(vals@)),
{
    let ghost c0 = config.view();
    let files = cg_files_exec(vals);
    if files.len() > 0 {
        let ghost fv = strings_view(files@);
        config.cg_sets.insert(key, files);
        assert(config.view().cg_sets =~= c0.cg_sets.insert(key@, fv));
    }
}

fn apply_bgm(config: &mut GameConfig, key: &Vec<char>, vals: &Vec<Vec<char>>)
    requires
        old(config).wf(),
    ensures
        final(config).wf(),
        final(config).view() == table_step(1, old(config).view(), key@, views(vals@)),
{
    let ghost c0 = config.view();
    if vals.len() >= 2 {
        let ogg = clean_value(&vals[1]);
        let oc = chars_of(ogg.as_str());
        if oc.len() > 0 {
            let ghost ov = ogg@;
            config.bgm_files.insert(key, ogg);
            assert(config.view().bgm_files =~= c0.bgm_files.insert(key@, ov));
        }
    }
}

fn apply_scene(config: &mut GameConfig, key: &Vec<char>, vals: &Vec<Vec<char>>)
    requires
        old(config).wf(),
    ensures
        final(config).wf(),
        final(config).view() == table_step(2, old(config).view(), key@, views(vals@)),
{
    let ghost c0 = config.view();
    if vals.len() >= 3 {
        let file_num = trim(&vals[2]);
        let label = if vals.len() >= 4 {
            clean_value(&vals[3])
        } else {
            let none: Vec<char> = Vec::new();
            string_of(&none)
        };
        if file_num.len() > 0 && !eq_str(&file_num, "\"\"") {
            let num = match parse_i32(&file_num) {
                Some(v) => v,
                None => 0,
            };
            let entry = SceneEntry { file: string_of(&pad5_exec(num)), label: label };
            let ghost le = (entry.file@, entry.label@);
            let ghost old_list: Seq<(Seq<char>, Seq<char>)> = if c0.scene_jumps.dom().contains(key@) {
                c0.scene_jumps[key@]
            } else {
                Seq::empty()
            };
            match config.scene_jumps.get_mut(key) {
                Some(list) => {
                    let ghost before = list@;
                    list.push(entry);
                    assert(scenes_view(before.push(entry)) =~= scenes_view(before).push(le));
                },
                None => {
                    let mut v: Vec<SceneEntry> = Vec::new();
                    v.push(entry);
                    assert(scenes_view(v@) =~= Seq::<(Seq<char>, Seq<char>)>::empty().push(le));
                    config.scene_jumps.insert(key, v);
                },
            }
            assert(config.view().scene_jumps =~= c0.scene_jumps.insert(key@, old_list.push(le)));
        }
    }
}

fn apply_fg(config: &mut GameConfig, key: &Vec<char>, vals: &Vec<Vec<char>>)
    requires
        old(config).wf(),
    ensures
        final(config).wf(),
        final(config).view() == table_step(3, old(config).view(), key@, views(vals@)),
{
    let ghost c0 = config.view();
    if vals.len() > 0 {
        let dir = clean_value(&vals[0]);
        let dc = chars_of(dir.as_str());
        if dc.len() > 0 && ends_with_str(&dc, "/") {
            let d = string_of(&trim_end_matches_str(&dc, "/"));
            let ghost dv = d@;
            config.fg_paths.insert(key, d);
            assert(config.view().fg_paths =~= c0.fg_paths.insert(key@, dv));
        }
    }
}

proof fn lemma_fold_stays_none(which: int, c: GameConfigV, es: Seq<Seq<char>>, k: int, n: int)
    requires
        0 <= k <= n,
        table_fold(which, c, es, k) is None,
    ensures
        table_fold(which, c, es, n) is None,
    decreases n - k,
{
    if k < n {
        lemma_fold_stays_none(which, c, es, k + 1, n);
    }
}

/// Reads one of the tables into the configuration: the CG sets (0), the
/// BGM files (1), the scene jumps (2) or the sprite directories (3).
/// `false` exactly where the table cannot be cut out of the text; the
/// configuration is then well formed but only partly filled.
fn try_extract_table(which: u8, content: &str, config: &mut GameConfig) -> (ok: bool)
    requires
        which < 4,
        byte_len(content@) < i32::MAX,
        old(config).wf(),
    ensures
        final(config).wf(),
        ok == (table_spec(which as int, content@, old(config).view()) is Some),
        ok ==> table_spec(which as int, content@, old(config).view()) == Some(final(config).view()),
{
    let ghost c0 = config.view();
    let body = match try_extract_table_body(content, table_marker_str(which)) {
        None => return false,
        Some(None) => return true,
        Some(Some(b)) => b,
    };
    let es = match try_split_table_entries(body.as_str()) {
        None => return false,
        Some(es) => es,
    };
    let ghost esv = views(es@);
    assert(table_entries_after(content@, table_marker(which as int)) == Some(Some(esv)));
    let mut k: usize = 0;
    while k < es.len()
        invariant
            which < 4,
            config.wf(),
            k <= es@.len(),
            esv == views(es@),
            c0 == old(config).view(),
            pieces_within(es@, byte_len(body@)),
            byte_len(body@) < i32::MAX,
            table_spec(which as int, content@, c0) == table_fold(which as int, c0, esv, esv.len() as int),
            table_fold(which as int, c0, esv, k as int) == Some(config.view()),
        decreases es@.len() - k,
    {
        assert(byte_len(es@[k as int]@) <= byte_len(body@));
        assert(esv[k as int] == es@[k as int]@);
        match try_parse_key_value_table(&es[k]) {
            None => {
                proof {
                    assert(table_fold(which as int, c0, esv, k + 1) is None);
                    lemma_fold_stays_none(which as int, c0, esv, k + 1, esv.len() as int);
                }
                return false;
            },
            Some(None) => {},
            Some(Some((key, vals))) => {
                let kc = chars_of(key.as_str());
                if which == 0 {
                    apply_cg(config, &kc, &vals);
                } else if which == 1 {
                    apply_bgm(config, &kc, &vals);
                } else if which == 2 {
                    apply_scene(config, &kc, &vals);
                } else {
                    apply_fg(config, &kc, &vals);
                }
            },
        }
        k = k + 1;
    }
    true
}

/// Reads `csv.extra_cgmode`: each CG set with its image files.
pub fn extract_cg_table(content: &str, config: &mut GameConfig)
    requires
        byte_len(content@) < i32::MAX,
        old(config).wf(),
        table_spec(0, content@, old(config).view()) is Some,
    ensures
        final(config).wf(),
        table_spec(0, content@, old(config).view()) == Some(final(config).view()),
{
    try_extract_table(0, content, config);
}

/// Reads `csv.extra_bgm`: each music track with its file.
pub fn extract_bgm_table(content: &str, config: &mut GameConfig)
    requires
        byte_len(content@) < i32::MAX,
        old(config).wf(),
        table_spec(1, content@, old(config).view()) is Some,
    ensures
        final(config).wf(),
        table_spec(1, content@, old(config).view()) == Some(final(config).view()),
{
    try_extract_table(1, content, config);
}

/// Reads `csv.extra_event`: the scenes each replay entry jumps to.
pub fn extract_scene_table(content: &str, config: &mut GameConfig)
    requires
        byte_len(content@) < i32::MAX,
        old(config).wf(),
        table_spec(2, content@, old(config).view()) is Some,
    ensures
        final(config).wf(),
        table_spec(2, content@, old(config).view()) == Some(final(config).view()),
{
    try_extract_table(2, content, config);
}

/// Reads `csv.fg`: the directory of each character's sprites.
pub fn extract_fg_table(content: &str, config: &mut GameConfig)
    requires
        byte_len(content@) < i32::MAX,
        old(config).wf(),
        table_spec(3, content@, old(config).view()) is Some,
    ensures
        final(config).wf(),
        table_spec(3, content@, old(config).view()) == Some(final(config).view()),
{
    try_extract_table(3, content, config);
}

// ------------------------------------------------------------------
// The `init` table
// ------------------------------------------------------------------

/// The asset-path keys read from the `init` table, in the order in which
/// they are looked for.
pub open spec fn init_key(k: int) -> Seq<char> {
    if k == 0 {
        "bg_path"@
    } else if k == 1 {
        "ev_path"@
    } else if k == 2 {
        "fg_path"@
    } else if k == 3 {
        "bgm_path"@
    } else if k == 4 {
        "se_path"@
    } else if k == 5 {
        "voice_path"@
    } else if k == 6 {
        "thumbnail_path"@
    } else {
        "face_path"@
    }
}

fn init_key_str(k: u8) -> (s: &'static str)
    requires
        k < 8,
    ensures
        s@ == init_key(k as int),
{
    if k == 0 {
        "bg_path"
    } else if k == 1 {
        "ev_path"
    } else if k == 2 {
        "fg_path"
    } else if k == 3 {
        "bgm_path"
    } else if k == 4 {
        "se_path"
    } else if k == 5 {
        "voice_path"
    } else if k == 6 {
        "thumbnail_path"
    } else {
        "face_path"
    }
}

/// The configuration with its asset paths replaced.
pub open spec fn with_init_paths(c: GameConfigV, m: Map<Seq<char>, Seq<char>>) -> GameConfigV {
    GameConfigV { init_paths: m, ..c }
}

/// `split('=').nth(1)` of a line: the text between its first `=` and the
/// next one, or the end of the line.
pub open spec fn second_field(t: Seq<char>) -> Seq<char> {
    match find_char_spec(t, '=') {
        Some(p) => if 0 <= p < t.len() {
            let rest = t.subrange(p + 1, t.len() as int);
            match find_char_spec(rest, '=') {
                Some(q) => if 0 <= q < rest.len() { rest.subrange(0, q) } else { rest },
                None => rest,
            }
        } else {
            Seq::empty()
        },
        None => Seq::empty(),
    }
}

/// The path a line of the `init` table gives: its second field, trimmed,
/// without trailing commas and without its delimiters.
pub open spec fn init_value(t: Seq<char>) -> Seq<char> {
    lua_value_spec(trim_end_matches_spec(trim_spec(second_field(t)), ","@))
}

/// `"key"`, quoted.
pub open spec fn quoted(key: Seq<char>) -> Seq<char> {
    seq!['"'] + key + seq!['"']
}

/// The paths after looking for the first `k` keys in the trimmed line `t`.
pub open spec fn init_line_keys(m: Map<Seq<char>, Seq<char>>, t: Seq<char>, k: int) -> Map<Seq<char>, Seq<char>>
    decreases k,
{
    if k <= 0 {
        m
    } else {
        let m1 = init_line_keys(m, t, k - 1);
        let key = init_key(k - 1);
        if contains_spec(t, quoted(key)) && init_value(t).len() > 0 {
            m1.insert(key, init_value(t))
        } else {
            m1
        }
    }
}

/// The paths after the first `n` lines of the `init` table.
pub open spec fn init_lines_fold(m: Map<Seq<char>, Seq<char>>, ls: Seq<Seq<char>>, n: int) -> Map<Seq<char>, Seq<char>>
    decreases n,
{
    if n <= 0 {
        m
    } else {
        let m1 = init_lines_fold(m, ls, n - 1);
        let t = trim_spec(ls[n - 1]);
        if find_char_spec(t, '=') is Some {
            init_line_keys(m1, t, 8)
        } else {
            m1
        }
    }
}

/// The configuration after reading the `init` table; `None` where the
/// table cannot be cut out of the text.
pub open spec fn init_spec(content: Seq<char>, c: GameConfigV) -> Option<GameConfigV> {
    match table_body_spec(content, "init ="@) {
        None => None,
        Some(None) => Some(c),
        Some(Some(body)) => {
            let ls = lines_spec(body);
            Some(with_init_paths(c, init_lines_fold(c.init_paths, ls, ls.len() as int)))
        },
    }
}

fn second_field_exec(t: &Vec<char>) -> (r: Vec<char>)
    ensures
        r@ == second_field(t@),
{
    let n = t.len();
    match find_char(t, '=') {
        Some(p) => {
            proof {
                lemma_find_char_from_bound(t@, '=', 0);
            }
            let rest = tail(t, p + 1);
            match find_char(&rest, '=') {
                Some(q) => {
                    proof {
                        lemma_find_char_from_bound(rest@, '=', 0);
                    }
                    slice_of(&rest, 0, q)
                },
                None => rest,
            }
        },
        None => Vec::new(),
    }
}

fn quoted_exec(key: &str) -> (r: Vec<char>)
    ensures
        r@ == quoted(key@),
{
    let mut q: Vec<char> = Vec::new();
    q.push('"');
    let k = chars_of(key);
    let mut r = concat(&q, &k);
    r.push('"');
    assert(q@ =~= seq!['"']);
    assert(r@ =~= quoted(key@));
    r
}

fn apply_init_line(config: &mut GameConfig, t: &Vec<char>)
    requires
        old(config).wf(),
    ensures
        final(config).wf(),
        final(config).view() == with_init_paths(old(config).view(), init_line_keys(old(config).view().init_paths, t@, 8)),
{
    let ghost c0 = config.view();
    let rhs = second_field_exec(t);
    let raw = trim_end_matches_str(&trim(&rhs), ",");
    let path = extract_lua_value(string_of(&raw).as_str());
    let pc = chars_of(path.as_str());
    assert(pc@ == init_value(t@));
    let mut k: u8 = 0;
    while k < 8
        invariant
            k <= 8,
            config.wf(),
            pc@ == init_value(t@),
            config.view() == with_init_paths(c0, init_line_keys(c0.init_paths, t@, k as int)),
        decreases 8 - k,
    {
        let key = init_key_str(k);
        let q = quoted_exec(key);
        if find(t, &q).is_some() && pc.len() > 0 {
            let kc = chars_of(key);
            let ghost before = config.view().init_paths;
            config.init_paths.insert(&kc, string_of(&pc));
            assert(config.view().init_paths =~= before.insert(kc@, pc@));
        }
        k = k + 1;
    }
}

/// Reads the `init` table; `false` exactly where it cannot be cut out of
/// the text.
fn try_extract_init_table(content: &str, config: &mut GameConfig) -> (ok: bool)
    requires
        byte_len(content@) < i32::MAX,
        old(config).wf(),
    ensures
        final(config).wf(),
        ok == (init_spec(content@, old(config).view()) is Some),
        ok ==> init_spec(content@, old(config).view()) == Some(final(config).view()),
{
    let ghost c0 = config.view();
    let body = match try_extract_table_body(content, "init =") {
        None => return false,
        Some(None) => return true,
        Some(Some(b)) => b,
    };
    let ls = lines(&chars_of(body.as_str()));
    let ghost lsv = views(ls@);
    let mut i: usize = 0;
    while i < ls.len()
        invariant
            config.wf(),
            i <= ls@.len(),
            lsv == views(ls@),
            init_spec(content@, c0) == Some(with_init_paths(c0, init_lines_fold(c0.init_paths, lsv, lsv.len() as int))),
            config.view() == with_init_paths(c0, init_lines_fold(c0.init_paths, lsv, i as int)),
        decreases ls@.len() - i,
    {
        assert(lsv[i as int] == ls@[i as int]@);
        let t = trim(&ls[i]);
        if find_char(&t, '=').is_some() {
            apply_init_line(config, &t);
        }
        i = i + 1;
    }
    true
}

/// Reads the asset paths of the `init` table.
pub fn extract_init_table(content: &str, config: &mut GameConfig)
    requires
        byte_len(content@) < i32::MAX,
        old(config).wf(),
        init_spec(content@, old(config).view()) is Some,
    ensures
        final(config).wf(),
        init_spec(content@, old(config).view()) == Some(final(config).view()),
{
    try_extract_init_table(content, config);
}

// ------------------------------------------------------------------
// The whole file
// ------------------------------------------------------------------

/// The configuration read out of `csv.lua`: the `init` table, then the CG,
/// BGM, scene and sprite tables, each added to an empty configuration.
/// `None` where a table cannot be cut out of the text.
pub open spec fn config_spec(content: Seq<char>) -> Option<GameConfigV> {
    match init_spec(content, empty_config()) {
        None => None,
        Some(c1) => match table_spec(0, content, c1) {
            None => None,
            Some(c2) => match table_spec(1, content, c2) {
                None => None,
                Some(c3) => match table_spec(2, content, c3) {
                    None => None,
                    Some(c4) => table_spec(3, content, c4),
                },
            },
        },
    }
}

/// Reads every table of `csv.lua`; `None` exactly where one of them
/// cannot be cut out of the text.
pub fn try_extract_config(content: &str) -> (r: Option<GameConfig>)
    requires
        byte_len(content@) < i32::MAX,
    ensures
        match r {
            None => config_spec(content@) is None,
            Some(c) => c.wf() && config_spec(content@) == Some(c.view()),
        },
{
    let mut config = GameConfig::new();
    if !try_extract_init_table(content, &mut config) {
        return None;
    }
    if !try_extract_table(0, content, &mut config) {
        return None;
    }
    if !try_extract_table(1, content, &mut config) {
        return None;
    }
    if !try_extract_table(2, content, &mut config) {
        return None;
    }
    if !try_extract_table(3, content, &mut config) {
        return None;
    }
    Some(config)
}

/// Reads every table of `csv.lua`.
pub fn extract_config_from(content: &str) -> (c: GameConfig)
    requires
        byte_len(content@) < i32::MAX,
        config_spec(content@) is Some,
    ensures
        c.wf(),
        config_spec(content@) == Some(c.view()),
{
    match try_extract_config(content) {
        Some(c) => c,
        None => GameConfig::new(),
    }
}

impl Default for GameConfig {
    fn default() -> (c: GameConfig)
        ensures
            c.wf(),
            c.view() == empty_config(),
    {
        GameConfig::new()
    }
}

} // verus!
