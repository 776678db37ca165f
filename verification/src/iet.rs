//! The `.iet` text script format: one `[command args]` per line, `*label`
//! lines, and `if` / `else` / `/if` blocks.
use vstd::prelude::*;
use crate::number::{Real, RealV, float_lit_spec, is_float_lit};
use crate::script::{ChoiceOption, ChoiceV, CmdV, ConditionOp, FgPosition, ScriptCmd, cmds_view, law_negate_op, negate_op, op_holds};
use crate::strmap::StrMap;
use crate::text::{
    chars_of, concat, contains_spec, contains_str, copy, ends_with_str, ends_with_spec, eq_str, find_spec,
    find_str, is_ws, is_ws_spec, lemma_find_from_bound, parse_i32, parse_i32_spec, parse_u32, parse_u32_spec,
    parse_u64, parse_u64_spec, replace_spec, replace_str, slice_of, split_whitespace, split_ws_spec,
    starts_with_spec, starts_with_str, strip_prefix_spec, string_of, tail, trim, trim_matches_char,
    trim_matches_char_spec, trim_spec, trim_start_matches_spec, trim_start_matches_str, trim_start,
    trim_start_spec, views, word_end, ws_skip, lines, lines_spec, find_char_from, ws_back, split_ws_from,
};

verus! {

// ------------------------------------------------------------------
// Attributes: `key="value" key='value' key=value`
// ------------------------------------------------------------------

/// The strings of an attribute map, as characters.
pub open spec fn attrs_view(m: &StrMap<String>) -> Map<Seq<char>, Seq<char>> {
    m.view().map_values(|s: String| s@)
}

/// The first index at or after `i` holding `=` or whitespace.
pub open spec fn key_end(c: Seq<char>, i: int) -> int
    decreases c.len() - i,
{
    if 0 <= i < c.len() && c[i] != '=' && !is_ws_spec(c[i]) {
        key_end(c, i + 1)
    } else {
        i
    }
}

/// The first index at or after `i` holding `q`, or the length.
pub open spec fn quote_end(c: Seq<char>, i: int, q: char) -> int
    decreases c.len() - i,
{
    if 0 <= i < c.len() && c[i] != q {
        quote_end(c, i + 1, q)
    } else {
        i
    }
}

/// The value that starts at `i3` and the index after it: quoted with `"`
/// or `'` (up to the closing quote or the end), or a run of
/// non-whitespace.
pub open spec fn attr_value(c: Seq<char>, i3: int) -> (Seq<char>, int) {
    if c[i3] == '"' || c[i3] == '\'' {
        let e = quote_end(c, i3 + 1, c[i3]);
        (c.subrange(i3 + 1, e), if e < c.len() { e + 1 } else { e })
    } else {
        let e = word_end(c, i3);
        (c.subrange(i3, e), e)
    }
}

/// The attributes read from `c[i..]`, added to `acc`; a later key wins.
/// A word without `=` is skipped, and so is a key with nothing after it.
pub open spec fn attrs_from(c: Seq<char>, i: int, acc: Map<Seq<char>, Seq<char>>) -> Map<Seq<char>, Seq<char>>
    decreases c.len() - i,
{
    let i1 = ws_skip(c, i);
    if i < 0 || i1 >= c.len() || i1 < i {
        acc
    } else {
        let ke = key_end(c, i1);
        if ke >= c.len() || c[ke] != '=' {
            let nx = word_end(c, ke);
            if nx <= i || nx > c.len() {
                acc
            } else {
                attrs_from(c, nx, acc)
            }
        } else {
            let i3 = ws_skip(c, ke + 1);
            if i3 >= c.len() || i3 <= ke {
                acc
            } else {
                let (v, nx) = attr_value(c, i3);
                if nx <= i || nx > c.len() {
                    acc
                } else {
                    attrs_from(c, nx, acc.insert(c.subrange(i1, ke), v))
                }
            }
        }
    }
}

/// The attributes of a command's argument text.
pub open spec fn parse_attrs_spec(rest: Seq<char>) -> Map<Seq<char>, Seq<char>> {
    attrs_from(trim_spec(rest), 0, Map::empty())
}

proof fn lemma_ws_skip_ge(s: Seq<char>, i: int)
    requires
        0 <= i,
    ensures
        i <= ws_skip(s, i),
        ws_skip(s, i) <= s.len() || ws_skip(s, i) == i,
        ws_skip(s, i) < s.len() ==> !is_ws_spec(s[ws_skip(s, i)]),
    decreases s.len() - i,
{
    if 0 <= i < s.len() && is_ws_spec(s[i]) {
        lemma_ws_skip_ge(s, i + 1);
    }
}

proof fn lemma_key_end_ge(c: Seq<char>, i: int)
    ensures
        i <= key_end(c, i),
    decreases c.len() - i,
{
    if 0 <= i < c.len() && c[i] != '=' && !is_ws_spec(c[i]) {
        lemma_key_end_ge(c, i + 1);
    }
}

fn ws_skip_at(c: &Vec<char>, i: usize) -> (j: usize)
    requires
        i <= c@.len(),
    ensures
        j == ws_skip(c@, i as int),
        i <= j <= c@.len(),
        j < c@.len() ==> !is_ws_spec(c@[j as int]),
{
    let mut j = i;
    while j < c.len() && is_ws(c[j])
        invariant
            i <= j <= c@.len(),
            ws_skip(c@, i as int) == ws_skip(c@, j as int),
        decreases c@.len() - j,
    {
        j = j + 1;
    }
    j
}

fn word_end_at(c: &Vec<char>, i: usize) -> (j: usize)
    requires
        i <= c@.len(),
    ensures
        j == word_end(c@, i as int),
        i <= j <= c@.len(),
{
    let mut j = i;
    while j < c.len() && !is_ws(c[j])
        invariant
            i <= j <= c@.len(),
            word_end(c@, i as int) == word_end(c@, j as int),
        decreases c@.len() - j,
    {
        j = j + 1;
    }
    j
}

fn key_end_at(c: &Vec<char>, i: usize) -> (j: usize)
    requires
        i <= c@.len(),
    ensures
        j == key_end(c@, i as int),
        i <= j <= c@.len(),
{
    let mut j = i;
    while j < c.len() && c[j] != '=' && !is_ws(c[j])
        invariant
            i <= j <= c@.len(),
            key_end(c@, i as int) == key_end(c@, j as int),
        decreases c@.len() - j,
    {
        j = j + 1;
    }
    j
}

fn quote_end_at(c: &Vec<char>, i: usize, q: char) -> (j: usize)
    requires
        i <= c@.len(),
    ensures
        j == quote_end(c@, i as int, q),
        i <= j <= c@.len(),
{
    let mut j = i;
    while j < c.len() && c[j] != q
        invariant
            i <= j <= c@.len(),
            quote_end(c@, i as int, q) == quote_end(c@, j as int, q),
        decreases c@.len() - j,
    {
        j = j + 1;
    }
    j
}

/// Reads `key=value` attributes from a command's argument text.
pub fn parse_attrs(rest: &str) -> (m: StrMap<String>)
    ensures
        m.wf(),
        attrs_view(&m) == parse_attrs_spec(rest@),
{
    let c = trim(&chars_of(rest));
    let mut m: StrMap<String> = StrMap::new();
    let mut i: usize = 0;
    assert(attrs_view(&m) =~= Map::<Seq<char>, Seq<char>>::empty());
    loop
        invariant
            m.wf(),
            i <= c@.len(),
            c@ == trim_spec(rest@),
            attrs_from(c@, 0, Map::empty()) == attrs_from(c@, i as int, attrs_view(&m)),
        decreases c@.len() - i,
    {
        let i1 = ws_skip_at(&c, i);
        if i1 >= c.len() {
            return m;
        }
        let ke = key_end_at(&c, i1);
        if ke >= c.len() || c[ke] != '=' {
            let nx = word_end_at(&c, ke);
            proof {
                if ke == i1 && ke < c@.len() {
                    assert(key_end(c@, i1 as int) == key_end(c@, i1 + 1));
                    lemma_key_end_ge(c@, i1 + 1);
                }
            }
            i = nx;
        } else {
            let i3 = ws_skip_at(&c, ke + 1);
            if i3 >= c.len() {
                return m;
            }
            let q = c[i3];
            let (v, nx) = if q == '"' || q == '\'' {
                let e = quote_end_at(&c, i3 + 1, q);
                (slice_of(&c, i3 + 1, e), if e < c.len() { e + 1 } else { e })
            } else {
                assert(word_end(c@, i3 as int) == word_end(c@, i3 + 1));
                let e = word_end_at(&c, i3 + 1);
                (slice_of(&c, i3, e), e)
            };
            assert(attr_value(c@, i3 as int) == (v@, nx as int));
            let key = slice_of(&c, i1, ke);
            let ghost before = attrs_view(&m);
            m.insert(&key, string_of(&v));
            assert(attrs_view(&m) =~= before.insert(key@, v@));
            i = nx;
        }
    }
}

// ------------------------------------------------------------------
// Small helpers on a command line
// ------------------------------------------------------------------

/// `(name, rest)`: the text before the first whitespace, and from it on.
pub open spec fn split_cmd_spec(inner: Seq<char>) -> (Seq<char>, Seq<char>) {
    let p = word_end(inner, 0);
    (inner.subrange(0, p), inner.subrange(p, inner.len() as int))
}

/// Splits a command into its name and the rest, which keeps its leading
/// whitespace.
pub fn split_cmd(inner: &Vec<char>) -> (r: (Vec<char>, Vec<char>))
    ensures
        (r.0@, r.1@) == split_cmd_spec(inner@),
{
    let p = word_end_at(inner, 0);
    (slice_of(inner, 0, p), tail(inner, p))
}

/// The first word of the trimmed text and the rest without its leading
/// whitespace.
pub open spec fn split_two_args_spec(rest: Seq<char>) -> (Seq<char>, Seq<char>) {
    let r = trim_spec(rest);
    let p = word_end(r, 0);
    (r.subrange(0, p), trim_start_spec(r.subrange(p, r.len() as int)))
}

/// Splits `"a b c"` into `"a"` and `"b c"`.
pub fn split_two_args(rest: &Vec<char>) -> (r: (Vec<char>, Vec<char>))
    ensures
        (r.0@, r.1@) == split_two_args_spec(rest@),
{
    let t = trim(rest);
    let p = word_end_at(&t, 0);
    (slice_of(&t, 0, p), trim_start(&tail(&t, p)))
}

/// The `index`-th whitespace-separated word of the trimmed text.
pub open spec fn iet_attr_spec(rest: Seq<char>, index: int) -> Option<Seq<char>> {
    let parts = split_ws_spec(trim_spec(rest));
    if 0 <= index < parts.len() {
        Some(parts[index])
    } else {
        None
    }
}

/// The `index`-th positional argument.
pub fn parse_iet_attr(rest: &Vec<char>, index: usize) -> (r: Option<Vec<char>>)
    ensures
        r matches Some(v) ==> iet_attr_spec(rest@, index as int) == Some(v@),
        r is None ==> iet_attr_spec(rest@, index as int) is None,
{
    let parts = split_whitespace(&trim(rest));
    if index < parts.len() {
        Some(copy(&parts[index]))
    } else {
        None
    }
}

/// The first word of the form `name=value`, with `"` trimmed from the value.
pub open spec fn named_attr_from(parts: Seq<Seq<char>>, pattern: Seq<char>, i: int) -> Option<Seq<char>>
    decreases parts.len() - i,
{
    if i < 0 || i >= parts.len() {
        None
    } else {
        match strip_prefix_spec(parts[i], pattern) {
            Some(v) => Some(trim_matches_char_spec(v, '"')),
            None => named_attr_from(parts, pattern, i + 1),
        }
    }
}

pub open spec fn iet_named_attr_spec(rest: Seq<char>, name: Seq<char>) -> Option<Seq<char>> {
    named_attr_from(split_ws_spec(rest), name.push('='), 0)
}

/// The value of a `name=value` word.
pub fn parse_iet_named_attr(rest: &Vec<char>, name: &str) -> (r: Option<Vec<char>>)
    ensures
        r matches Some(v) ==> iet_named_attr_spec(rest@, name@) == Some(v@),
        r is None ==> iet_named_attr_spec(rest@, name@) is None,
{
    let mut pattern = chars_of(name);
    pattern.push('=');
    let parts = split_whitespace(rest);
    let mut i: usize = 0;
    while i < parts.len()
        invariant
            i <= parts@.len(),
            pattern@ == name@.push('='),
            views(parts@) == split_ws_spec(rest@),
            named_attr_from(views(parts@), pattern@, 0) == named_attr_from(views(parts@), pattern@, i as int),
        decreases parts@.len() - i,
    {
        let part = &parts[i];
        assert(part@ == views(parts@)[i as int]);
        if crate::text::starts_with(part, &pattern) {
            let v = tail(part, pattern.len());
            return Some(trim_matches_char(&v, '"'));
        }
        i = i + 1;
    }
    None
}

/// A line whose trimmed text is `*` followed by at least one more character
/// and does not open with `*/`.
pub open spec fn is_label_line_spec(line: Seq<char>) -> bool {
    let t = trim_spec(line);
    starts_with_spec(t, "*"@) && !starts_with_spec(t, "*/"@) && t.len() > 1
}

/// Whether a line is a `*label` line.
pub fn is_label_line(line: &Vec<char>) -> (b: bool)
    ensures
        b == is_label_line_spec(line@),
{
    let t = trim(line);
    starts_with_str(&t, "*") && !starts_with_str(&t, "*/") && t.len() > 1
}

/// The condition text of `estimate="..."`, without its quotes.
pub open spec fn estimate_spec(rest: Seq<char>) -> Option<Seq<char>> {
    let r = trim_spec(rest);
    if !starts_with_spec(r, "estimate="@) {
        None
    } else {
        let v = trim_spec(trim_start_matches_spec(r, "estimate="@));
        if (starts_with_spec(v, "\""@) && ends_with_spec(v, "\""@)) || (starts_with_spec(v, "'"@) && ends_with_spec(v, "'"@)) {
            Some(v.subrange(1, v.len() - 1))
        } else {
            Some(v)
        }
    }
}

/// The value is a lone quote character, which the format cannot strip.
pub open spec fn estimate_is_lone_quote(rest: Seq<char>) -> bool {
    let r = trim_spec(rest);
    let v = trim_spec(trim_start_matches_spec(r, "estimate="@));
    starts_with_spec(r, "estimate="@) && (v == "\""@ || v == "'"@)
}

proof fn lemma_quote_pair_len(v: Seq<char>, q: Seq<char>)
    requires
        q.len() == 1,
        starts_with_spec(v, q),
        ends_with_spec(v, q),
        v != q,
    ensures
        v.len() >= 2,
{
    if v.len() == 1 {
        assert(v =~= v.subrange(0, 1));
    }
}

/// Reads the condition of `[if estimate="..."]`.
pub fn extract_estimate(rest: &Vec<char>) -> (r: Option<Vec<char>>)
    requires
        !estimate_is_lone_quote(rest@),
    ensures
        r matches Some(v) ==> estimate_spec(rest@) == Some(v@),
        r is None ==> estimate_spec(rest@) is None,
{
    let r = trim(rest);
    if !starts_with_str(&r, "estimate=") {
        return None;
    }
    let v = trim(&trim_start_matches_str(&r, "estimate="));
    let dq = starts_with_str(&v, "\"") && ends_with_str(&v, "\"");
    let sq = starts_with_str(&v, "'") && ends_with_str(&v, "'");
    if dq || sq {
        proof {
            reveal_strlit("\"");
            reveal_strlit("'");
            if dq {
                lemma_quote_pair_len(v@, "\""@);
            } else {
                lemma_quote_pair_len(v@, "'"@);
            }
        }
        Some(slice_of(&v, 1, v.len() - 1))
    } else {
        Some(v)
    }
}

// ------------------------------------------------------------------
// Reading attribute values
// ------------------------------------------------------------------

/// The value stored under `k`.
pub open spec fn attr(m: Map<Seq<char>, Seq<char>>, k: Seq<char>) -> Option<Seq<char>> {
    if m.dom().contains(k) {
        Some(m[k])
    } else {
        None
    }
}

pub open spec fn ov(o: Option<Vec<char>>) -> Option<Seq<char>> {
    match o {
        Some(v) => Some(v@),
        None => None,
    }
}

/// The value stored under the literal key `k`, as characters.
pub fn attr_get(m: &StrMap<String>, k: &str) -> (r: Option<Vec<char>>)
    requires
        m.wf(),
    ensures
        ov(r) == attr(attrs_view(m), k@),
{
    match m.get_str(k) {
        Some(s) => Some(chars_of(s.as_str())),
        None => None,
    }
}

/// A `u32` read from the value, else `d`.
pub open spec fn u32_or(o: Option<Seq<char>>, d: int) -> int {
    match o {
        Some(s) => match parse_u32_spec(s) {
            Some(v) => v,
            None => d,
        },
        None => d,
    }
}

/// A `u64` read from the value, else `d`.
pub open spec fn u64_or(o: Option<Seq<char>>, d: int) -> int {
    match o {
        Some(s) => match parse_u64_spec(s) {
            Some(v) => v,
            None => d,
        },
        None => d,
    }
}

/// An `i32` read from the value, else `d`.
pub open spec fn i32_or(o: Option<Seq<char>>, d: int) -> int {
    match o {
        Some(s) => match parse_i32_spec(s) {
            Some(v) => v,
            None => d,
        },
        None => d,
    }
}

/// A `u64` read from the value, if it reads as one.
pub open spec fn u64_opt(o: Option<Seq<char>>) -> Option<int> {
    match o {
        Some(s) => parse_u64_spec(s),
        None => None,
    }
}

/// The value as a float literal, else the literal `d`.
pub open spec fn real_or(o: Option<Seq<char>>, d: Seq<char>) -> RealV {
    match o {
        Some(s) => if float_lit_spec(s) {
            RealV::Lit(s)
        } else {
            RealV::Lit(d)
        },
        None => RealV::Lit(d),
    }
}

/// The value, else `d`.
pub open spec fn str_or(o: Option<Seq<char>>, d: Seq<char>) -> Seq<char> {
    match o {
        Some(s) => s,
        None => d,
    }
}

/// An attribute read as a `u32`, else `d`.
pub(crate) fn u32_or_exec(o: &Option<Vec<char>>, d: u32) -> (r: u32)
    ensures
        r as int == u32_or(ov(*o), d as int),
{
    match o {
        Some(s) => match parse_u32(s) {
            Some(v) => v,
            None => d,
        },
        None => d,
    }
}

/// An attribute read as a `u64`, else `d`.
pub(crate) fn u64_or_exec(o: &Option<Vec<char>>, d: u64) -> (r: u64)
    ensures
        r as int == u64_or(ov(*o), d as int),
{
    match o {
        Some(s) => match parse_u64(s) {
            Some(v) => v,
            None => d,
        },
        None => d,
    }
}

/// An attribute read as an `i32`, else `d`.
pub(crate) fn i32_or_exec(o: &Option<Vec<char>>, d: i32) -> (r: i32)
    ensures
        r as int == i32_or(ov(*o), d as int),
{
    match o {
        Some(s) => match parse_i32(s) {
            Some(v) => v,
            None => d,
        },
        None => d,
    }
}

/// An attribute read as a `u64`, where it is one.
pub(crate) fn u64_opt_exec(o: &Option<Vec<char>>) -> (r: Option<u64>)
    ensures
        (match r { Some(v) => Some(v as int), None => None }) == u64_opt(ov(*o)),
{
    match o {
        Some(s) => parse_u64(s),
        None => None,
    }
}

/// An attribute as a number where it is a float literal, else the
/// literal `d`.
pub(crate) fn real_or_exec(o: &Option<Vec<char>>, d: &str) -> (r: Real)
    ensures
        r@ == real_or(ov(*o), d@),
{
    match o {
        Some(s) => if is_float_lit(s) {
            Real::Lit(string_of(s))
        } else {
            Real::Lit(d.to_owned())
        },
        None => Real::Lit(d.to_owned()),
    }
}

/// An attribute's text, else `d`.
pub(crate) fn str_or_exec(o: &Option<Vec<char>>, d: &str) -> (r: String)
    ensures
        r@ == str_or(ov(*o), d@),
{
    match o {
        Some(s) => string_of(s),
        None => d.to_owned(),
    }
}

/// An attribute's text, where it is present.
pub(crate) fn opt_string(o: &Option<Vec<char>>) -> (r: Option<String>)
    ensures
        crate::script::opt_str_view(r) == ov(*o),
{
    match o {
        Some(s) => Some(string_of(s)),
        None => None,
    }
}

/// Whether the value equals the literal.
pub open spec fn is_value(o: Option<Seq<char>>, lit: Seq<char>) -> bool {
    o == Some(lit)
}

/// Whether an attribute is present with the text `lit`.
pub(crate) fn is_value_exec(o: &Option<Vec<char>>, lit: &str) -> (b: bool)
    ensures
        b == is_value(ov(*o), lit@),
{
    match o {
        Some(s) => eq_str(s, lit),
        None => false,
    }
}

/// The volume name for a numeric level: 0, 30 and 80 have names of their
/// own; every other level is `HIGH`.
pub open spec fn volume_name(v: int) -> Seq<char> {
    if v == 0 {
        "MIN"@
    } else if v == 30 {
        "LOW"@
    } else if v == 80 {
        "NORM"@
    } else {
        "HIGH"@
    }
}

/// The name of a volume level.
pub(crate) fn volume_name_exec(v: u32) -> (r: String)
    ensures
        r@ == volume_name(v as int),
{
    let s = if v == 0 {
        "MIN"
    } else if v == 30 {
        "LOW"
    } else if v == 80 {
        "NORM"
    } else {
        "HIGH"
    };
    s.to_owned()
}

// ------------------------------------------------------------------
// `if` conditions
// ------------------------------------------------------------------

/// Why an `if` condition could not be read.
#[derive(Clone, Copy, Debug, PartialEq, Eq, Structural)]
pub enum CondError {
    /// No `tmp` comparison was found.
    CannotParse,
    /// The compared value is not an `i32`.
    InvalidValue,
}

/// The condition with `$t.tmp` renamed and anything after `||` dropped.
pub open spec fn cond_first_part(expr: Seq<char>) -> Seq<char> {
    let e1 = replace_spec(trim_spec(expr), "$t.tmp"@, "tmp"@);
    match find_spec(e1, "||"@) {
        Some(p) => if 0 <= p <= e1.len() {
            trim_spec(e1.subrange(0, p))
        } else {
            e1
        },
        None => e1,
    }
}

/// A condition on the system status rather than on a variable.
pub open spec fn is_system_cond(e: Seq<char>) -> bool {
    contains_spec(e, "$s."@) || contains_spec(e, "s.status"@)
}

/// The condition with `$t.` renamed to `tmp.` and all spaces removed.
pub open spec fn cond_compact(e: Seq<char>) -> Seq<char> {
    replace_spec(replace_spec(e, "$t."@, "tmp."@), " "@, ""@)
}

pub open spec fn cond_prefix(k: int) -> Seq<char> {
    if k == 0 {
        "tmp=="@
    } else if k == 1 {
        "tmp!="@
    } else if k == 2 {
        "tmp>="@
    } else if k == 3 {
        "tmp<="@
    } else if k == 4 {
        "tmp>"@
    } else {
        "tmp<"@
    }
}

/// The comparison that the `k`-th prefix writes.
pub open spec fn source_op(k: int) -> ConditionOp {
    if k == 0 {
        ConditionOp::Equal
    } else if k == 1 {
        ConditionOp::NotEqual
    } else if k == 2 {
        ConditionOp::GreaterEqual
    } else if k == 3 {
        ConditionOp::LessEqual
    } else if k == 4 {
        ConditionOp::Greater
    } else {
        ConditionOp::Less
    }
}

pub open spec fn first_cond_prefix(e: Seq<char>, k: int) -> Option<int>
    decreases 6 - k,
{
    if k < 0 || k >= 6 {
        None
    } else if starts_with_spec(e, cond_prefix(k)) {
        Some(k)
    } else {
        first_cond_prefix(e, k + 1)
    }
}

/// A condition `tmp OP value`, read as the operator under which the `if`
/// is skipped (the negation of `OP`) and the value.  A system condition
/// (on the runtime's status, which scripts cannot read) counts as true: it
/// is read as `tmp > i32::MAX`, which no value of `tmp` meets, so its block
/// always runs.
pub open spec fn parse_condition_spec(expr: Seq<char>) -> Result<(ConditionOp, int), CondError> {
    let e2 = cond_first_part(expr);
    if is_system_cond(e2) {
        Ok((ConditionOp::Greater, i32::MAX as int))
    } else {
        let e4 = cond_compact(e2);
        match first_cond_prefix(e4, 0) {
            Some(k) => if cond_prefix(k).len() <= e4.len() {
                match parse_i32_spec(e4.subrange(cond_prefix(k).len() as int, e4.len() as int)) {
                    Some(v) => Ok((negate_op(source_op(k)), v)),
                    None => Err(CondError::InvalidValue),
                }
            } else {
                Err(CondError::CannotParse)
            },
            None => Err(CondError::CannotParse),
        }
    }
}

/// An `if` is compiled to a jump past its block taken exactly when the
/// written comparison of `tmp` does not hold, so the block runs exactly
/// when it does.
pub proof fn law_if_block_runs_when_its_condition_holds(expr: Seq<char>, tmp: int)
    requires
        parse_condition_spec(expr) is Ok,
        !is_system_cond(cond_first_part(expr)),
    ensures
        ({
            let (op, v) = parse_condition_spec(expr)->Ok_0;
            let k = first_cond_prefix(cond_compact(cond_first_part(expr)), 0)->0;
            op_holds(op, tmp, v) == !op_holds(source_op(k), tmp, v)
        }),
{
    let k = first_cond_prefix(cond_compact(cond_first_part(expr)), 0)->0;
    let (op, v) = parse_condition_spec(expr)->Ok_0;
    law_negate_op(source_op(k), tmp, v);
}

/// An `if` on the system status always runs its block: the jump past it is
/// never taken, whatever `tmp` holds.
pub proof fn law_system_condition_block_always_runs(expr: Seq<char>, tmp: i32)
    requires
        is_system_cond(cond_first_part(expr)),
    ensures
        parse_condition_spec(expr) is Ok,
        !op_holds(parse_condition_spec(expr)->Ok_0.0, tmp as int, parse_condition_spec(expr)->Ok_0.1),
{
}

fn cond_prefix_str(k: usize) -> (s: &'static str)
    requires
        k < 6,
    ensures
        s@ == cond_prefix(k as int),
{
    if k == 0 {
        "tmp=="
    } else if k == 1 {
        "tmp!="
    } else if k == 2 {
        "tmp>="
    } else if k == 3 {
        "tmp<="
    } else if k == 4 {
        "tmp>"
    } else {
        "tmp<"
    }
}

fn negated_op_exec(k: usize) -> (op: ConditionOp)
    requires
        k < 6,
    ensures
        op == negate_op(source_op(k as int)),
{
    if k == 0 {
        ConditionOp::NotEqual
    } else if k == 1 {
        ConditionOp::Equal
    } else if k == 2 {
        ConditionOp::Less
    } else if k == 3 {
        ConditionOp::Greater
    } else if k == 4 {
        ConditionOp::LessEqual
    } else {
        ConditionOp::GreaterEqual
    }
}

/// Reads an `if` condition as the jump that skips the `if` block.
pub fn parse_condition_ext(expr: &str) -> (r: Result<(ConditionOp, i32), CondError>)
    ensures
        match r {
            Ok((op, v)) => parse_condition_spec(expr@) == Ok::<(ConditionOp, int), CondError>((op, v as int)),
            Err(e) => parse_condition_spec(expr@) == Err::<(ConditionOp, int), CondError>(e),
        },
{
    proof {
        reveal_strlit("$t.tmp");
        reveal_strlit(" ");
        reveal_strlit("$t.");
    }
    let e0 = trim(&chars_of(expr));
    let e1 = replace_str(&e0, "$t.tmp", "tmp");
    let e2 = match find_str(&e1, "||") {
        Some(p) => {
            proof {
                lemma_find_from_bound(e1@, "||"@, 0);
            }
            trim(&slice_of(&e1, 0, p))
        },
        None => e1,
    };
    if contains_str(&e2, "$s.") || contains_str(&e2, "s.status") {
        return Ok((ConditionOp::Greater, i32::MAX));
    }
    let e3 = replace_str(&e2, "$t.", "tmp.");
    let e4 = replace_str(&e3, " ", "");
    assert(e2@ == cond_first_part(expr@));
    let mut k: usize = 0;
    while k < 6
        invariant
            k <= 6,
            e4@ == cond_compact(cond_first_part(expr@)),
            !is_system_cond(cond_first_part(expr@)),
            first_cond_prefix(e4@, 0) == first_cond_prefix(e4@, k as int),
        decreases 6 - k,
    {
        if starts_with_str(&e4, cond_prefix_str(k)) {
            let p = chars_of(cond_prefix_str(k));
            let rest = tail(&e4, p.len());
            return match parse_i32(&rest) {
                Some(v) => Ok((negated_op_exec(k), v)),
                None => Err(CondError::InvalidValue),
            };
        }
        k = k + 1;
    }
    Err(CondError::CannotParse)
}

// ------------------------------------------------------------------
// `calllua` commands
// ------------------------------------------------------------------

/// Whether the function name contains one of the two patterns.
pub open spec fn has2(f: Seq<char>, a: Seq<char>, b: Seq<char>) -> bool {
    contains_spec(f, a) || contains_spec(f, b)
}

/// The commands that a `calllua` with these attributes stands for, matched
/// on the `function` name; `None` where the function is not known or a
/// required attribute is missing.
pub open spec fn calllua_iet_spec(a: Map<Seq<char>, Seq<char>>) -> Option<Seq<CmdV>> {
    match attr(a, "function"@) {
        None => None,
        Some(f) => if has2(f, "choice"@, "tags.choice"@) {
            Some(seq![CmdV::Choice { options: seq![ChoiceV {
                text: "[choice in "@ + f + "]"@,
                affection_change: None,
                goto: None,
            }] }])
        } else if has2(f, "set_bg"@, "setbg"@) {
            match attr(a, "file"@) {
                Some(file) => Some(seq![CmdV::SetBg { file, transition: None, duration: None }]),
                None => None,
            }
        } else if contains_spec(f, "bgm_play"@) {
            match attr(a, "file"@) {
                Some(id) => Some(seq![CmdV::PlayBgm {
                    id,
                    volume: match attr(a, "vol"@) {
                        Some(v) => if float_lit_spec(v) { Some(RealV::Hundredth(v)) } else { None },
                        None => None,
                    },
                    fade_in: match u64_opt(attr(a, "time"@)) {
                        Some(t) => Some(t as u64),
                        None => None,
                    },
                }]),
                None => None,
            }
        } else if contains_spec(f, "bgm_stop"@) {
            Some(seq![CmdV::StopBgm {
                id: attr(a, "file"@),
                fade_out: match u64_opt(attr(a, "time"@)) {
                    Some(t) => Some(t as u64),
                    None => None,
                },
            }])
        } else if contains_spec(f, "se_play"@) {
            match attr(a, "file"@) {
                Some(file) => if u32_or(attr(a, "loop"@), 0) != 0 {
                    Some(seq![CmdV::LoopSe { file, volume: None, channel: u32_or(attr(a, "id"@), 0) as u32 }])
                } else {
                    Some(seq![CmdV::PlaySe { file, volume: None }])
                },
                None => None,
            }
        } else if contains_spec(f, "se_stop"@) {
            Some(seq![CmdV::StopStreamingSe { channel: u32_or(attr(a, "id"@), 0) as u32 }])
        } else if contains_spec(f, "voice_play"@) {
            match attr(a, "file"@) {
                Some(file) => Some(seq![CmdV::PlayVoice { file }]),
                None => None,
            }
        } else if has2(f, "show_fg"@, "fg_show"@) {
            match attr(a, "id"@) {
                Some(char_id) => Some(seq![CmdV::ShowFg {
                    char_id,
                    expression: str_or(attr(a, "file"@), "000"@),
                    position: FgPosition::Center,
                    transition: None,
                }]),
                None => None,
            }
        } else if has2(f, "hide_fg"@, "fg_hide"@) {
            Some(seq![CmdV::HideFg { char_id: str_or(attr(a, "id"@), "all"@), transition: None }])
        } else if has2(f, "show_cg"@, "cg_show"@) {
            match attr(a, "file"@) {
                Some(file) => Some(seq![CmdV::ShowCg { file, transition: None }]),
                None => None,
            }
        } else if has2(f, "hide_cg"@, "cg_hide"@) {
            Some(seq![CmdV::HideCg { transition: None }])
        } else if has2(f, "affection_change"@, "affection"@) {
            Some(seq![CmdV::AffectionChange {
                char_id: str_or(attr(a, "char_id"@), "default"@),
                delta: i32_or(attr(a, "delta"@), 1) as i32,
            }])
        } else if has2(f, "save_point"@, "quicksave"@) {
            Some(seq![CmdV::SavePoint])
        } else if has2(f, "wait_tag"@, "tags.wt"@) || contains_spec(f, "tags.wtx"@) {
            Some(seq![CmdV::Wait { duration: u64_or(attr(a, "time"@), 500) as u64 }])
        } else if has2(f, "unlock_cg"@, "cg_unlock"@) {
            Some(seq![CmdV::UnlockCg { file: str_or(attr(a, "file"@), "unknown"@) }])
        } else if has2(f, "scroll_bg"@, "ScrollBGenq"@) {
            Some(seq![CmdV::ScrollBg {
                file: match attr(a, "file"@) {
                    Some(v) => v,
                    None => str_or(attr(a, "0"@), ""@),
                },
                x1: real_or(attr(a, "1"@), "0.0"@),
                y1: real_or(attr(a, "2"@), "0.0"@),
                x2: real_or(attr(a, "4"@), "0.0"@),
                y2: real_or(attr(a, "5"@), "0.0"@),
                fade: u64_or(attr(a, "9"@), 0) as u64,
                wait: is_value(attr(a, "10"@), "TRUE"@),
            }])
        } else if has2(f, "ChangeVolumeOfBGM"@, "bgm_fade"@) {
            Some(seq![CmdV::BgmVol {
                channel: u32_or(attr(a, "0"@), 0) as u32,
                volume: volume_name(u32_or(attr(a, "1"@), 80)),
            }])
        } else {
            None
        }
    }
}

fn has2_exec(f: &Vec<char>, a: &str, b: &str) -> (r: bool)
    ensures
        r == has2(f@, a@, b@),
{
    contains_str(f, a) || contains_str(f, b)
}

fn one(c: ScriptCmd) -> (v: Vec<ScriptCmd>)
    ensures
        cmds_view(v@) == seq![c@],
{
    let mut v: Vec<ScriptCmd> = Vec::new();
    v.push(c);
    assert(cmds_view(v@) =~= seq![c@]);
    v
}

/// The commands that a `calllua` line of an `.iet` script stands for.
pub fn map_calllua_iet(a: &StrMap<String>) -> (r: Option<Vec<ScriptCmd>>)
    requires
        a.wf(),
    ensures
        match r {
            Some(v) => calllua_iet_spec(attrs_view(a)) == Some(cmds_view(v@)),
            None => calllua_iet_spec(attrs_view(a)) is None,
        },
{
    let av = Ghost(attrs_view(a));
    let f = match attr_get(a, "function") {
        Some(f) => f,
        None => return None,
    };
    if has2_exec(&f, "choice", "tags.choice") {
        let text = concat(&concat(&chars_of("[choice in "), &f), &chars_of("]"));
        let opt = ChoiceOption { text: string_of(&text), affection_change: None, goto: None };
        let mut options: Vec<ChoiceOption> = Vec::new();
        options.push(opt);
        let c = ScriptCmd::Choice { options };
        assert(crate::script::choices_view(options@) =~= seq![ChoiceV {
            text: "[choice in "@ + f@ + "]"@,
            affection_change: None,
            goto: None,
        }]);
        return Some(one(c));
    }
    if has2_exec(&f, "set_bg", "setbg") {
        return match attr_get(a, "file") {
            Some(file) => Some(one(ScriptCmd::SetBg { file: string_of(&file), transition: None, duration: None })),
            None => None,
        };
    }
    if contains_str(&f, "bgm_play") {
        return match attr_get(a, "file") {
            Some(id) => {
                let vol = attr_get(a, "vol");
                let volume = match &vol {
                    Some(v) => if is_float_lit(v) { Some(Real::Hundredth(string_of(v))) } else { None },
                    None => None,
                };
                let fade_in = u64_opt_exec(&attr_get(a, "time"));
                Some(one(ScriptCmd::PlayBgm { id: string_of(&id), volume, fade_in }))
            },
            None => None,
        };
    }
    if contains_str(&f, "bgm_stop") {
        let id = opt_string(&attr_get(a, "file"));
        let fade_out = u64_opt_exec(&attr_get(a, "time"));
        return Some(one(ScriptCmd::StopBgm { id, fade_out }));
    }
    if contains_str(&f, "se_play") {
        return match attr_get(a, "file") {
            Some(file) => {
                if u32_or_exec(&attr_get(a, "loop"), 0) != 0 {
                    let channel = u32_or_exec(&attr_get(a, "id"), 0);
                    Some(one(ScriptCmd::LoopSe { file: string_of(&file), volume: None, channel }))
                } else {
                    Some(one(ScriptCmd::PlaySe { file: string_of(&file), volume: None }))
                }
            },
            None => None,
        };
    }
    if contains_str(&f, "se_stop") {
        let channel = u32_or_exec(&attr_get(a, "id"), 0);
        return Some(one(ScriptCmd::StopStreamingSe { channel }));
    }
    if contains_str(&f, "voice_play") {
        return match attr_get(a, "file") {
            Some(file) => Some(one(ScriptCmd::PlayVoice { file: string_of(&file) })),
            None => None,
        };
    }
    if has2_exec(&f, "show_fg", "fg_show") {
        return match attr_get(a, "id") {
            Some(char_id) => {
                let expression = str_or_exec(&attr_get(a, "file"), "000");
                Some(one(ScriptCmd::ShowFg {
                    char_id: string_of(&char_id),
                    expression,
                    position: FgPosition::Center,
                    transition: None,
                }))
            },
            None => None,
        };
    }
    if has2_exec(&f, "hide_fg", "fg_hide") {
        let char_id = str_or_exec(&attr_get(a, "id"), "all");
        return Some(one(ScriptCmd::HideFg { char_id, transition: None }));
    }
    if has2_exec(&f, "show_cg", "cg_show") {
        return match attr_get(a, "file") {
            Some(file) => Some(one(ScriptCmd::ShowCg { file: string_of(&file), transition: None })),
            None => None,
        };
    }
    if has2_exec(&f, "hide_cg", "cg_hide") {
        return Some(one(ScriptCmd::HideCg { transition: None }));
    }
    if has2_exec(&f, "affection_change", "affection") {
        let char_id = str_or_exec(&attr_get(a, "char_id"), "default");
        let delta = i32_or_exec(&attr_get(a, "delta"), 1);
        return Some(one(ScriptCmd::AffectionChange { char_id, delta }));
    }
    if has2_exec(&f, "save_point", "quicksave") {
        return Some(one(ScriptCmd::SavePoint));
    }
    if has2_exec(&f, "wait_tag", "tags.wt") || contains_str(&f, "tags.wtx") {
        let duration = u64_or_exec(&attr_get(a, "time"), 500);
        return Some(one(ScriptCmd::Wait { duration }));
    }
    if has2_exec(&f, "unlock_cg", "cg_unlock") {
        let file = str_or_exec(&attr_get(a, "file"), "unknown");
        return Some(one(ScriptCmd::UnlockCg { file }));
    }
    if has2_exec(&f, "scroll_bg", "ScrollBGenq") {
        let file = match attr_get(a, "file") {
            Some(v) => string_of(&v),
            None => str_or_exec(&attr_get(a, "0"), ""),
        };
        proof {
            reveal_strlit("");
        }
        let x1 = real_or_exec(&attr_get(a, "1"), "0.0");
        let y1 = real_or_exec(&attr_get(a, "2"), "0.0");
        let x2 = real_or_exec(&attr_get(a, "4"), "0.0");
        let y2 = real_or_exec(&attr_get(a, "5"), "0.0");
        let fade = u64_or_exec(&attr_get(a, "9"), 0);
        let wait = is_value_exec(&attr_get(a, "10"), "TRUE");
        return Some(one(ScriptCmd::ScrollBg { file, x1, y1, x2, y2, fade, wait }));
    }
    if has2_exec(&f, "ChangeVolumeOfBGM", "bgm_fade") {
        let channel = u32_or_exec(&attr_get(a, "0"), 0);
        let volume = volume_name_exec(u32_or_exec(&attr_get(a, "1"), 80));
        return Some(one(ScriptCmd::BgmVol { channel, volume }));
    }
    None
}

// ------------------------------------------------------------------
// Whole scripts
// ------------------------------------------------------------------

/// Why an `.iet` script could not be read.
#[derive(Clone, Copy, Debug, PartialEq, Eq, Structural)]
pub enum IetError {
    /// `StoreValueToLocalWork` with an index that is not a `u32`.
    InvalidStoreIndex,
    /// `StoreValueToLocalWork` with a value that is neither `t.tmp...` nor an `i32`.
    InvalidStoreValue,
    /// `LoadValueFromLocalWork` with an index that is not a `u32`.
    InvalidLoadIndex,
    /// `GetLocalFlag` with an index that is not a `u32`.
    InvalidFlagIndex,
    /// `if` without `estimate=`.
    MissingCondition,
    /// `else` outside an `if` block.
    ElseWithoutIf,
    /// `/if` outside an `if` block.
    EndIfWithoutIf,
    /// The script ends inside an `if` block.
    UnclosedIf,
}

/// An open `if` block.
pub struct IfFrame {
    pub has_else: bool,
    pub else_label: String,
    pub endif_label: String,
}

pub struct IfFrameV {
    pub has_else: bool,
    pub else_label: Seq<char>,
    pub endif_label: Seq<char>,
}

impl View for IfFrame {
    type V = IfFrameV;

    open spec fn view(&self) -> IfFrameV {
        IfFrameV { has_else: self.has_else, else_label: self.else_label@, endif_label: self.endif_label@ }
    }
}

/// The state while reading a script: the commands so far, the open `if`
/// blocks, and the number of `if`s seen.
pub struct IetState {
    pub out: Seq<CmdV>,
    pub stack: Seq<IfFrameV>,
    pub counter: nat,
}

pub struct IetExec {
    pub out: Vec<ScriptCmd>,
    pub stack: Vec<IfFrame>,
    pub counter: u32,
}

impl View for IetExec {
    type V = IetState;

    open spec fn view(&self) -> IetState {
        IetState {
            out: cmds_view(self.out@),
            stack: self.stack@.map_values(|f: IfFrame| f@),
            counter: self.counter as nat,
        }
    }
}

pub open spec fn push_out(st: IetState, c: CmdV) -> IetState {
    IetState { out: st.out.push(c), ..st }
}

pub open spec fn else_label(id: nat) -> Seq<char> {
    "iet_else_"@ + crate::text::nat_digits(id)
}

pub open spec fn endif_label(id: nat) -> Seq<char> {
    "iet_endif_"@ + crate::text::nat_digits(id)
}

/// Control-flow and variable commands.
pub open spec fn cmd_flow_spec(st: IetState, name: Seq<char>, rest: Seq<char>) -> Option<Result<IetState, IetError>> {
    if name == "CallScript"@ {
        Some(Ok(push_out(st, CmdV::CallScript { script: trim_spec(rest), label: None })))
    } else if name == "StoreValueToLocalWork"@ {
        let (i_s, v_s) = split_two_args_spec(rest);
        match parse_u32_spec(trim_spec(i_s)) {
            None => Some(Err(IetError::InvalidStoreIndex)),
            Some(index) => {
                let raw = trim_spec(v_s);
                if starts_with_spec(raw, "t.tmp"@) {
                    Some(Ok(push_out(st, CmdV::StoreValueToLocalWork { index: index as u32, value: 0, expression: Some(raw) })))
                } else {
                    match parse_i32_spec(raw) {
                        Some(value) => Some(Ok(push_out(st, CmdV::StoreValueToLocalWork { index: index as u32, value: value as i32, expression: None }))),
                        None => Some(Err(IetError::InvalidStoreValue)),
                    }
                }
            },
        }
    } else if name == "LoadValueFromLocalWork"@ {
        match parse_u32_spec(trim_spec(rest)) {
            Some(index) => Some(Ok(push_out(st, CmdV::LoadValueFromLocalWork { index: index as u32 }))),
            None => Some(Err(IetError::InvalidLoadIndex)),
        }
    } else if name == "GetLocalFlag"@ {
        match parse_u32_spec(trim_spec(rest)) {
            Some(index) => Some(Ok(push_out(st, CmdV::GetLocalFlag { index: index as u32 }))),
            None => Some(Err(IetError::InvalidFlagIndex)),
        }
    } else if name == "SetGlobalFlag"@ {
        let (i_s, v_s) = split_two_args_spec(rest);
        match (parse_u32_spec(trim_spec(i_s)), parse_i32_spec(trim_spec(v_s))) {
            (Some(index), Some(value)) => Some(Ok(push_out(st, CmdV::SetGlobalFlag { index: index as u32, value: value as i32 }))),
            _ => Some(Ok(st)),
        }
    } else if name == "TerminateExecutionOfScript"@ || name == "stop"@ {
        Some(Ok(push_out(st, CmdV::Halt)))
    } else if name == "SetValidityOfLoading"@ || name == "SetValidityOfSaving"@ {
        Some(Ok(st))
    } else if name == "return"@ {
        Some(Ok(push_out(st, CmdV::Return)))
    } else if name == "jump"@ {
        let a = parse_attrs_spec(rest);
        let t = match attr(a, "label"@) {
            Some(v) => Some(v),
            None => attr(a, "target"@),
        };
        match t {
            Some(target) => Some(Ok(push_out(st, CmdV::Jump { target }))),
            None => match iet_attr_spec(rest, 0) {
                Some(p) => if p.len() > 0 && !(crate::text::find_char_spec(p, '=') is Some) {
                    Some(Ok(push_out(st, CmdV::Jump { target: p })))
                } else {
                    Some(Ok(st))
                },
                None => Some(Ok(st)),
            },
        }
    } else if name == "call"@ {
        let target = trim_spec(rest);
        if target.len() > 0 && !(crate::text::find_char_spec(target, '=') is Some) {
            Some(Ok(push_out(st, CmdV::Call { target })))
        } else {
            Some(Ok(st))
        }
    } else if name == "wait"@ || name == "wt"@ || name == "wt0"@ {
        let a = parse_attrs_spec(rest);
        let from_attr = match attr(a, "time"@) {
            Some(t) => parse_u64_spec(trim_start_matches_spec(t, "$t."@)),
            None => None,
        };
        let d = match from_attr {
            Some(v) => Some(v),
            None => match iet_attr_spec(rest, 0) {
                Some(w) => parse_u64_spec(w),
                None => None,
            },
        };
        let duration = match d {
            Some(v) => v,
            None => if name == "wt0"@ { 0 } else { 500 },
        };
        Some(Ok(push_out(st, CmdV::Wait { duration: duration as u64 })))
    } else {
        None
    }
}

/// Commands with no effect, `calllua`, and a few single commands.
pub open spec fn cmd_misc_spec(st: IetState, name: Seq<char>, rest: Seq<char>) -> Option<Result<IetState, IetError>> {
    if name == "trans"@ || name == "sys_trans"@ {
        Some(Ok(st))
    } else if name == "calllua"@ {
        match calllua_iet_spec(parse_attrs_spec(rest)) {
            Some(cmds) => Some(Ok(IetState { out: st.out + cmds, ..st })),
            None => Some(Ok(st)),
        }
    } else if name == "var"@ || name == "yesno"@ || name == "key_start"@ || name == "allkeystart"@
        || name == "allkeystop"@ || name == "key_kill"@ {
        Some(Ok(st))
    } else if name == "msg_show"@ {
        Some(Ok(push_out(st, CmdV::Window { show: true, time: None })))
    } else if name == "btn_start"@ || name == "btn_attack"@ || name == "btnstat"@ || name == "btnoff"@
        || name == "btnon"@ || name == "lyc"@ || name == "lydel"@ || name == "lyevent"@ {
        Some(Ok(st))
    } else if name == "quicksave"@ {
        Some(Ok(push_out(st, CmdV::SavePoint)))
    } else if name == "save_on"@ || name == "save_off"@ {
        Some(Ok(st))
    } else {
        None
    }
}

/// `if`, `else` and `/if`.
pub open spec fn cmd_if_spec(st: IetState, name: Seq<char>, rest: Seq<char>) -> Option<Result<IetState, IetError>> {
    if name == "if"@ {
        let id = st.counter;
        let st1 = IetState { counter: st.counter + 1, ..st };
        match estimate_spec(rest) {
            None => Some(Err(IetError::MissingCondition)),
            Some(est) => match parse_condition_spec(est) {
                Err(_) => Some(Ok(st1)),
                Ok((op, value)) => {
                    let frame = IfFrameV { has_else: false, else_label: else_label(id), endif_label: endif_label(id) };
                    Some(Ok(IetState {
                        out: st1.out.push(CmdV::Condition { var: "tmp"@, value: value as i32, operator: op, goto: else_label(id) }),
                        stack: st1.stack.push(frame),
                        counter: st1.counter,
                    }))
                },
            },
        }
    } else if name == "else"@ {
        if st.stack.len() == 0 {
            Some(Err(IetError::ElseWithoutIf))
        } else {
            let f = st.stack.last();
            Some(Ok(IetState {
                out: st.out.push(CmdV::Jump { target: f.endif_label }).push(CmdV::Label { name: f.else_label }),
                stack: st.stack.update(st.stack.len() - 1, IfFrameV { has_else: true, ..f }),
                counter: st.counter,
            }))
        }
    } else if name == "/if"@ {
        if st.stack.len() == 0 {
            Some(Err(IetError::EndIfWithoutIf))
        } else {
            let f = st.stack.last();
            let out1 = if !f.has_else { st.out.push(CmdV::Label { name: f.else_label }) } else { st.out };
            Some(Ok(IetState {
                out: out1.push(CmdV::Label { name: f.endif_label }),
                stack: st.stack.drop_last(),
                counter: st.counter,
            }))
        }
    } else {
        None
    }
}

pub open spec fn u32_attr(rest: Seq<char>, i: int, d: int) -> u32 {
    u32_or(iet_attr_spec(rest, i), d) as u32
}

/// Engine commands with positional arguments.
pub open spec fn cmd_engine_spec(st: IetState, name: Seq<char>, rest: Seq<char>) -> Option<Result<IetState, IetError>> {
    if name == "SEStop"@ {
        Some(Ok(push_out(st, CmdV::StopAllSe)))
    } else if name == "RegisterTextToHistory"@ {
        Some(Ok(push_out(st, CmdV::PushHistory)))
    } else if name == "WaitToFinishVoicePlaying"@ {
        Some(Ok(push_out(st, CmdV::WaitVoice)))
    } else if name == "GetExecutionMode"@ {
        Some(Ok(push_out(st, CmdV::QueryMode { mode: str_or(iet_attr_spec(rest, 0), ""@) })))
    } else if name == "exif"@ {
        Some(Ok(push_out(st, CmdV::Exif { expression: str_or(iet_named_attr_spec(rest, "exp"@), ""@) })))
    } else if name == "DrawBG"@ {
        Some(Ok(push_out(st, CmdV::SetBg { file: str_or(iet_attr_spec(rest, 0), ""@), transition: None, duration: None })))
    } else if name == "blur_set"@ {
        Some(Ok(push_out(st, CmdV::Blur { power: u32_attr(rest, 0, 0) })))
    } else if name == "ChangeVolumeOfBGM"@ {
        Some(Ok(push_out(st, CmdV::BgmVol { channel: 1, volume: str_or(iet_attr_spec(rest, 0), "100"@) })))
    } else if name == "FadeOutBGM"@ {
        Some(Ok(push_out(st, CmdV::StopBgm { id: None, fade_out: None })))
    } else if name == "ChangeVolumeOfStreamingSE"@ {
        Some(Ok(push_out(st, CmdV::StreamingSeVol { id: u32_attr(rest, 0, 0), volume: u32_attr(rest, 1, 100) })))
    } else if name == "FadeOutStreamingSE"@ {
        Some(Ok(push_out(st, CmdV::StopStreamingSe { channel: u32_attr(rest, 0, 0) })))
    } else if name == "SetColorOfMonologue"@ {
        Some(Ok(push_out(st, CmdV::MonologueColor { color: str_or(iet_attr_spec(rest, 0), ""@) })))
    } else if name == "StartShakingOfAllObjects"@ || name == "ShakeScreenSx"@ {
        Some(Ok(push_out(st, CmdV::ShakeScreen { power: u32_attr(rest, 0, 0), time: u32_attr(rest, 1, 0) })))
    } else if name == "StartShakingOfSprite"@ {
        Some(Ok(push_out(st, CmdV::ShakeSprite { id: u32_attr(rest, 0, 0), power: u32_attr(rest, 1, 0), time: u32_attr(rest, 2, 0) })))
    } else if name == "TerminateShakingOfAllObjects"@ || name == "TerminateShakingOfSprite"@ {
        Some(Ok(push_out(st, CmdV::ShakeScreen { power: 0, time: 0 })))
    } else {
        None
    }
}

/// Any other command with a first argument becomes a no-op that records
/// the command.
pub open spec fn cmd_other_spec(st: IetState, name: Seq<char>, rest: Seq<char>) -> IetState {
    match iet_attr_spec(rest, 0) {
        Some(f) => if parse_i32_spec(f) is Some {
            push_out(st, CmdV::NoOp { tag: name + " ("@ + f + ")"@ })
        } else {
            push_out(st, CmdV::NoOp { tag: name + " "@ + rest })
        },
        None => st,
    }
}

/// One `[name rest]` command.
pub open spec fn iet_cmd_spec(st: IetState, name: Seq<char>, rest: Seq<char>) -> Result<IetState, IetError> {
    match cmd_flow_spec(st, name, rest) {
        Some(r) => r,
        None => match cmd_misc_spec(st, name, rest) {
            Some(r) => r,
            None => match cmd_if_spec(st, name, rest) {
                Some(r) => r,
                None => match cmd_engine_spec(st, name, rest) {
                    Some(r) => r,
                    None => Ok(cmd_other_spec(st, name, rest)),
                },
            },
        },
    }
}

/// A line that holds nothing to run: blank, a comment, or a label.
pub open spec fn is_passive_line(line: Seq<char>) -> bool {
    line.len() == 0 || starts_with_spec(line, "//"@) || starts_with_spec(line, "/*"@) || starts_with_spec(line, "*/"@)
        || (starts_with_spec(line, "*"@) && !starts_with_spec(line, "*/"@) && is_label_line_spec(line))
}

/// A line that is a command: `[` ... `]`.
pub open spec fn is_cmd_line(line: Seq<char>) -> bool {
    starts_with_spec(line, "["@) && ends_with_spec(line, "]"@)
}

/// One line of a script.
pub open spec fn iet_line_spec(st: IetState, raw: Seq<char>) -> Result<IetState, IetError> {
    let line = trim_spec(raw);
    if is_passive_line(line) {
        if is_label_line_spec(line) {
            let name = trim_spec(trim_start_matches_spec(line, "*"@));
            if name.len() > 0 {
                Ok(push_out(st, CmdV::Label { name }))
            } else {
                Ok(st)
            }
        } else {
            Ok(st)
        }
    } else if !is_cmd_line(line) || line.len() < 2 {
        Ok(st)
    } else {
        let (name, rest) = split_cmd_spec(line.subrange(1, line.len() - 1));
        iet_cmd_spec(st, name, rest)
    }
}

pub open spec fn iet_start() -> IetState {
    IetState { out: Seq::empty(), stack: Seq::empty(), counter: 0 }
}

/// The state after the given lines, or the first error.
pub open spec fn iet_lines_spec(ls: Seq<Seq<char>>) -> Result<IetState, IetError>
    decreases ls.len(),
{
    if ls.len() == 0 {
        Ok(iet_start())
    } else {
        match iet_lines_spec(ls.drop_last()) {
            Ok(st) => iet_line_spec(st, ls.last()),
            Err(e) => Err(e),
        }
    }
}

/// The commands of an `.iet` script, or why it cannot be read.
pub open spec fn parse_iet_spec(text: Seq<char>) -> Result<Seq<CmdV>, IetError> {
    match iet_lines_spec(lines_spec(text)) {
        Ok(st) => if st.stack.len() == 0 {
            Ok(st.out)
        } else {
            Err(IetError::UnclosedIf)
        },
        Err(e) => Err(e),
    }
}

/// A line that reaches `[if estimate=X]` with `X` a lone quote character.
pub open spec fn line_has_lone_quote(raw: Seq<char>) -> bool {
    let line = trim_spec(raw);
    &&& is_cmd_line(line)
    &&& line.len() >= 2
    &&& split_cmd_spec(line.subrange(1, line.len() - 1)).0 == "if"@
    &&& estimate_is_lone_quote(split_cmd_spec(line.subrange(1, line.len() - 1)).1)
}

/// The scripts that can be read without a failure of the reader itself:
/// no `if` line whose condition is a lone quote, and fewer lines than
/// `u32::MAX`, which bounds the number of `if` blocks.
pub open spec fn iet_input_ok(text: Seq<char>) -> bool {
    let ls = lines_spec(text);
    &&& ls.len() < u32::MAX
    &&& forall|i: int| 0 <= i < ls.len() ==> !line_has_lone_quote(#[trigger] ls[i])
}

fn push_cmd(st: &mut IetExec, c: ScriptCmd)
    ensures
        final(st)@ == push_out(old(st)@, c@),
{
    let ghost before = st.out@;
    st.out.push(c);
    assert(cmds_view(st.out@) =~= cmds_view(before).push(c@));
}

/// Whether the characters equal one of the literals.
fn is_one_of2(n: &Vec<char>, a: &str, b: &str) -> (r: bool)
    ensures
        r == (n@ == a@ || n@ == b@),
{
    eq_str(n, a) || eq_str(n, b)
}

fn is_one_of3(n: &Vec<char>, a: &str, b: &str, c: &str) -> (r: bool)
    ensures
        r == (n@ == a@ || n@ == b@ || n@ == c@),
{
    eq_str(n, a) || eq_str(n, b) || eq_str(n, c)
}

fn no_eq_sign(p: &Vec<char>) -> (r: bool)
    ensures
        r == !(crate::text::find_char_spec(p@, '=') is Some),
{
    crate::text::find_char(p, '=').is_none()
}

type StepResult = Option<Result<(), IetError>>;

pub open spec fn step_ok(r: Option<Result<(), IetError>>, spec: Option<Result<IetState, IetError>>, before: IetState, after: IetState) -> bool {
    match r {
        None => spec is None && after == before,
        Some(Ok(())) => spec == Some(Ok::<IetState, IetError>(after)),
        Some(Err(e)) => spec == Some(Err::<IetState, IetError>(e)),
    }
}

fn cmd_flow(st: &mut IetExec, name: &Vec<char>, rest: &Vec<char>) -> (r: StepResult)
    ensures
        step_ok(r, cmd_flow_spec(old(st)@, name@, rest@), old(st)@, final(st)@),
{
    if eq_str(name, "CallScript") {
        push_cmd(st, ScriptCmd::CallScript { script: string_of(&trim(rest)), label: None });
        return Some(Ok(()));
    }
    if eq_str(name, "StoreValueToLocalWork") {
        let (i_s, v_s) = split_two_args(rest);
        let index = match parse_u32(&trim(&i_s)) {
            Some(i) => i,
            None => return Some(Err(IetError::InvalidStoreIndex)),
        };
        let raw = trim(&v_s);
        if starts_with_str(&raw, "t.tmp") {
            push_cmd(st, ScriptCmd::StoreValueToLocalWork { index, value: 0, expression: Some(string_of(&raw)) });
        } else {
            match parse_i32(&raw) {
                Some(value) => push_cmd(st, ScriptCmd::StoreValueToLocalWork { index, value, expression: None }),
                None => return Some(Err(IetError::InvalidStoreValue)),
            }
        }
        return Some(Ok(()));
    }
    if eq_str(name, "LoadValueFromLocalWork") {
        return match parse_u32(&trim(rest)) {
            Some(index) => {
                push_cmd(st, ScriptCmd::LoadValueFromLocalWork { index });
                Some(Ok(()))
            },
            None => Some(Err(IetError::InvalidLoadIndex)),
        };
    }
    if eq_str(name, "GetLocalFlag") {
        return match parse_u32(&trim(rest)) {
            Some(index) => {
                push_cmd(st, ScriptCmd::GetLocalFlag { index });
                Some(Ok(()))
            },
            None => Some(Err(IetError::InvalidFlagIndex)),
        };
    }
    if eq_str(name, "SetGlobalFlag") {
        let (i_s, v_s) = split_two_args(rest);
        let a = parse_u32(&trim(&i_s));
        let b = parse_i32(&trim(&v_s));
        if let (Some(index), Some(value)) = (a, b) {
            push_cmd(st, ScriptCmd::SetGlobalFlag { index, value });
        }
        return Some(Ok(()));
    }
    if is_one_of2(name, "TerminateExecutionOfScript", "stop") {
        push_cmd(st, ScriptCmd::Halt);
        return Some(Ok(()));
    }
    if is_one_of2(name, "SetValidityOfLoading", "SetValidityOfSaving") {
        return Some(Ok(()));
    }
    if eq_str(name, "return") {
        push_cmd(st, ScriptCmd::Return);
        return Some(Ok(()));
    }
    if eq_str(name, "jump") {
        let rs = string_of(rest);
        let a = parse_attrs(rs.as_str());
        let t = match attr_get(&a, "label") {
            Some(v) => Some(v),
            None => attr_get(&a, "target"),
        };
        match t {
            Some(target) => push_cmd(st, ScriptCmd::Jump { target: string_of(&target) }),
            None => {
                if let Some(p) = parse_iet_attr(rest, 0) {
                    if p.len() > 0 && no_eq_sign(&p) {
                        push_cmd(st, ScriptCmd::Jump { target: string_of(&p) });
                    }
                }
            },
        }
        return Some(Ok(()));
    }
    if eq_str(name, "call") {
        let target = trim(rest);
        if target.len() > 0 && no_eq_sign(&target) {
            push_cmd(st, ScriptCmd::Call { target: string_of(&target) });
        }
        return Some(Ok(()));
    }
    if is_one_of3(name, "wait", "wt", "wt0") {
        let rs = string_of(rest);
        let a = parse_attrs(rs.as_str());
        let from_attr = match attr_get(&a, "time") {
            Some(t) => parse_u64(&trim_start_matches_str(&t, "$t.")),
            None => None,
        };
        let d = match from_attr {
            Some(v) => Some(v),
            None => match parse_iet_attr(rest, 0) {
                Some(w) => parse_u64(&w),
                None => None,
            },
        };
        let duration = match d {
            Some(v) => v,
            None => if eq_str(name, "wt0") { 0 } else { 500 },
        };
        push_cmd(st, ScriptCmd::Wait { duration });
        return Some(Ok(()));
    }
    None
}

fn cmd_misc(st: &mut IetExec, name: &Vec<char>, rest: &Vec<char>) -> (r: StepResult)
    ensures
        step_ok(r, cmd_misc_spec(old(st)@, name@, rest@), old(st)@, final(st)@),
{
    if is_one_of2(name, "trans", "sys_trans") {
        return Some(Ok(()));
    }
    if eq_str(name, "calllua") {
        let rs = string_of(rest);
        let a = parse_attrs(rs.as_str());
        if let Some(cmds) = map_calllua_iet(&a) {
            let mut cmds = cmds;
            let ghost before = st.out@;
            let ghost added = cmds@;
            st.out.append(&mut cmds);
            assert(cmds_view(st.out@) =~= cmds_view(before) + cmds_view(added));
        }
        return Some(Ok(()));
    }
    if is_one_of3(name, "var", "yesno", "key_start") || is_one_of3(name, "allkeystart", "allkeystop", "key_kill") {
        return Some(Ok(()));
    }
    if eq_str(name, "msg_show") {
        push_cmd(st, ScriptCmd::Window { show: true, time: None });
        return Some(Ok(()));
    }
    if is_one_of3(name, "btn_start", "btn_attack", "btnstat") || is_one_of3(name, "btnoff", "btnon", "lyc")
        || is_one_of2(name, "lydel", "lyevent") {
        return Some(Ok(()));
    }
    if eq_str(name, "quicksave") {
        push_cmd(st, ScriptCmd::SavePoint);
        return Some(Ok(()));
    }
    if is_one_of2(name, "save_on", "save_off") {
        return Some(Ok(()));
    }
    None
}

fn label_text(prefix: &str, id: u32) -> (s: String)
    ensures
        s@ == prefix@ + crate::text::nat_digits(id as nat),
{
    let p = chars_of(prefix);
    let d = crate::text::u64_chars(id as u64);
    string_of(&concat(&p, &d))
}

fn cmd_if(st: &mut IetExec, name: &Vec<char>, rest: &Vec<char>) -> (r: StepResult)
    requires
        old(st).counter < u32::MAX,
        name@ == "if"@ ==> !estimate_is_lone_quote(rest@),
    ensures
        step_ok(r, cmd_if_spec(old(st)@, name@, rest@), old(st)@, final(st)@),
{
    if eq_str(name, "if") {
        let id = st.counter;
        st.counter = st.counter + 1;
        let est = match extract_estimate(rest) {
            Some(e) => e,
            None => return Some(Err(IetError::MissingCondition)),
        };
        match parse_condition_ext(string_of(&est).as_str()) {
            Err(_) => return Some(Ok(())),
            Ok((op, value)) => {
                let el = label_text("iet_else_", id);
                let en = label_text("iet_endif_", id);
                let goto = el.clone();
                let ghost before_stack = st.stack@;
                st.stack.push(IfFrame { has_else: false, else_label: el, endif_label: en });
                assert(st.stack@.map_values(|f: IfFrame| f@) =~= before_stack.map_values(|f: IfFrame| f@).push(
                    IfFrameV { has_else: false, else_label: else_label(id as nat), endif_label: endif_label(id as nat) }));
                push_cmd(st, ScriptCmd::Condition { var: "tmp".to_owned(), value, operator: op, goto });
                return Some(Ok(()));
            },
        }
    }
    if eq_str(name, "else") {
        let n = st.stack.len();
        if n == 0 {
            return Some(Err(IetError::ElseWithoutIf));
        }
        let ghost before_stack = st.stack@;
        let endif = st.stack[n - 1].endif_label.clone();
        let els = st.stack[n - 1].else_label.clone();
        st.stack[n - 1].has_else = true;
        assert(st.stack@.map_values(|f: IfFrame| f@) =~= before_stack.map_values(|f: IfFrame| f@).update(n - 1,
            IfFrameV { has_else: true, ..before_stack[n - 1]@ }));
        push_cmd(st, ScriptCmd::Jump { target: endif });
        push_cmd(st, ScriptCmd::Label { name: els });
        return Some(Ok(()));
    }
    if eq_str(name, "/if") {
        let ghost before_stack = st.stack@;
        match st.stack.pop() {
            None => return Some(Err(IetError::EndIfWithoutIf)),
            Some(frame) => {
                assert(st.stack@.map_values(|f: IfFrame| f@) =~= before_stack.map_values(|f: IfFrame| f@).drop_last());
                if !frame.has_else {
                    push_cmd(st, ScriptCmd::Label { name: frame.else_label });
                }
                push_cmd(st, ScriptCmd::Label { name: frame.endif_label });
                return Some(Ok(()));
            },
        }
    }
    None
}

fn attr_or(rest: &Vec<char>, i: usize, d: &str) -> (s: String)
    ensures
        s@ == str_or(iet_attr_spec(rest@, i as int), d@),
{
    str_or_exec(&parse_iet_attr(rest, i), d)
}

fn u32_attr_exec(rest: &Vec<char>, i: usize, d: u32) -> (v: u32)
    ensures
        v == u32_attr(rest@, i as int, d as int),
{
    u32_or_exec(&parse_iet_attr(rest, i), d)
}

fn cmd_engine(st: &mut IetExec, name: &Vec<char>, rest: &Vec<char>) -> (r: StepResult)
    ensures
        step_ok(r, cmd_engine_spec(old(st)@, name@, rest@), old(st)@, final(st)@),
{
    let c = if eq_str(name, "SEStop") {
        ScriptCmd::StopAllSe
    } else if eq_str(name, "RegisterTextToHistory") {
        ScriptCmd::PushHistory
    } else if eq_str(name, "WaitToFinishVoicePlaying") {
        ScriptCmd::WaitVoice
    } else if eq_str(name, "GetExecutionMode") {
        ScriptCmd::QueryMode { mode: attr_or(rest, 0, "") }
    } else if eq_str(name, "exif") {
        ScriptCmd::Exif { expression: str_or_exec(&parse_iet_named_attr(rest, "exp"), "") }
    } else if eq_str(name, "DrawBG") {
        ScriptCmd::SetBg { file: attr_or(rest, 0, ""), transition: None, duration: None }
    } else if eq_str(name, "blur_set") {
        ScriptCmd::Blur { power: u32_attr_exec(rest, 0, 0) }
    } else if eq_str(name, "ChangeVolumeOfBGM") {
        ScriptCmd::BgmVol { channel: 1, volume: attr_or(rest, 0, "100") }
    } else if eq_str(name, "FadeOutBGM") {
        ScriptCmd::StopBgm { id: None, fade_out: None }
    } else if eq_str(name, "ChangeVolumeOfStreamingSE") {
        ScriptCmd::StreamingSeVol { id: u32_attr_exec(rest, 0, 0), volume: u32_attr_exec(rest, 1, 100) }
    } else if eq_str(name, "FadeOutStreamingSE") {
        ScriptCmd::StopStreamingSe { channel: u32_attr_exec(rest, 0, 0) }
    } else if eq_str(name, "SetColorOfMonologue") {
        ScriptCmd::MonologueColor { color: attr_or(rest, 0, "") }
    } else if is_one_of2(name, "StartShakingOfAllObjects", "ShakeScreenSx") {
        ScriptCmd::ShakeScreen { power: u32_attr_exec(rest, 0, 0), time: u32_attr_exec(rest, 1, 0) }
    } else if eq_str(name, "StartShakingOfSprite") {
        ScriptCmd::ShakeSprite { id: u32_attr_exec(rest, 0, 0), power: u32_attr_exec(rest, 1, 0), time: u32_attr_exec(rest, 2, 0) }
    } else if is_one_of2(name, "TerminateShakingOfAllObjects", "TerminateShakingOfSprite") {
        ScriptCmd::ShakeScreen { power: 0, time: 0 }
    } else {
        return None;
    };
    push_cmd(st, c);
    Some(Ok(()))
}

fn cmd_other(st: &mut IetExec, name: &Vec<char>, rest: &Vec<char>)
    ensures
        final(st)@ == cmd_other_spec(old(st)@, name@, rest@),
{
    if let Some(f) = parse_iet_attr(rest, 0) {
        if parse_i32(&f).is_some() {
            let tag = concat(&concat(&concat(name, &chars_of(" (")), &f), &chars_of(")"));
            push_cmd(st, ScriptCmd::NoOp { tag: string_of(&tag) });
        } else {
            let tag = concat(&concat(name, &chars_of(" ")), rest);
            push_cmd(st, ScriptCmd::NoOp { tag: string_of(&tag) });
        }
    }
}

fn iet_cmd(st: &mut IetExec, name: &Vec<char>, rest: &Vec<char>) -> (r: Result<(), IetError>)
    requires
        old(st).counter < u32::MAX,
        name@ == "if"@ ==> !estimate_is_lone_quote(rest@),
    ensures
        match r {
            Ok(()) => iet_cmd_spec(old(st)@, name@, rest@) == Ok::<IetState, IetError>(final(st)@),
            Err(e) => iet_cmd_spec(old(st)@, name@, rest@) == Err::<IetState, IetError>(e),
        },
{
    match cmd_flow(st, name, rest) {
        Some(r) => return r,
        None => {},
    }
    match cmd_misc(st, name, rest) {
        Some(r) => return r,
        None => {},
    }
    match cmd_if(st, name, rest) {
        Some(r) => return r,
        None => {},
    }
    match cmd_engine(st, name, rest) {
        Some(r) => return r,
        None => {},
    }
    cmd_other(st, name, rest);
    Ok(())
}

fn is_passive_line_exec(line: &Vec<char>) -> (b: bool)
    ensures
        b == is_passive_line(line@),
{
    line.len() == 0 || starts_with_str(line, "//") || starts_with_str(line, "/*") || starts_with_str(line, "*/")
        || (starts_with_str(line, "*") && !starts_with_str(line, "*/") && is_label_line(line))
}

fn iet_line(st: &mut IetExec, raw: &Vec<char>) -> (r: Result<(), IetError>)
    requires
        old(st).counter < u32::MAX,
        !line_has_lone_quote(raw@),
    ensures
        match r {
            Ok(()) => iet_line_spec(old(st)@, raw@) == Ok::<IetState, IetError>(final(st)@),
            Err(e) => iet_line_spec(old(st)@, raw@) == Err::<IetState, IetError>(e),
        },
{
    let line = trim(raw);
    if is_passive_line_exec(&line) {
        if is_label_line(&line) {
            let name = trim(&trim_start_matches_str(&line, "*"));
            if name.len() > 0 {
                push_cmd(st, ScriptCmd::Label { name: string_of(&name) });
            }
        }
        return Ok(());
    }
    if !(starts_with_str(&line, "[") && ends_with_str(&line, "]")) || line.len() < 2 {
        return Ok(());
    }
    let inner = slice_of(&line, 1, line.len() - 1);
    let (name, rest) = split_cmd(&inner);
    iet_cmd(st, &name, &rest)
}

proof fn lemma_counter_step(st: IetState, raw: Seq<char>)
    ensures
        iet_line_spec(st, raw) matches Ok(s2) ==> s2.counter <= st.counter + 1,
{
}

proof fn lemma_lines_counter(ls: Seq<Seq<char>>)
    ensures
        iet_lines_spec(ls) matches Ok(s) ==> s.counter <= ls.len(),
    decreases ls.len(),
{
    if ls.len() > 0 {
        lemma_lines_counter(ls.drop_last());
        if let Ok(s0) = iet_lines_spec(ls.drop_last()) {
            lemma_counter_step(s0, ls.last());
        }
    }
}

/// Reads an `.iet` script into commands.
pub fn parse_iet_content(text: &str, _verbose: bool) -> (r: Result<Vec<ScriptCmd>, IetError>)
    requires
        iet_input_ok(text@),
    ensures
        match r {
            Ok(v) => parse_iet_spec(text@) == Ok::<Seq<CmdV>, IetError>(cmds_view(v@)),
            Err(e) => parse_iet_spec(text@) == Err::<Seq<CmdV>, IetError>(e),
        },
{
    let ls = lines(&chars_of(text));
    let mut st = IetExec { out: Vec::new(), stack: Vec::new(), counter: 0 };
    assert(st@ == iet_start()) by {
        assert(st@.out =~= Seq::<CmdV>::empty());
        assert(st@.stack =~= Seq::<IfFrameV>::empty());
    }
    let mut i: usize = 0;
    while i < ls.len()
        invariant
            i <= ls@.len(),
            views(ls@) == lines_spec(text@),
            iet_input_ok(text@),
            iet_lines_spec(views(ls@).subrange(0, i as int)) == Ok::<IetState, IetError>(st@),
        decreases ls@.len() - i,
    {
        let ghost pre = views(ls@).subrange(0, i as int);
        let ghost next = views(ls@).subrange(0, i + 1);
        proof {
            assert(next.drop_last() =~= pre);
            lemma_lines_counter(pre);
            assert(views(ls@)[i as int] == ls@[i as int]@);
        }
        match iet_line(&mut st, &ls[i]) {
            Ok(()) => {},
            Err(e) => {
                proof {
                    lemma_lines_error_sticks(views(ls@), i as int + 1, e);
                    assert(views(ls@).subrange(0, views(ls@).len() as int) =~= views(ls@));
                }
                return Err(e);
            },
        }
        i = i + 1;
    }
    assert(views(ls@).subrange(0, ls@.len() as int) =~= views(ls@));
    if st.stack.len() > 0 {
        return Err(IetError::UnclosedIf);
    }
    Ok(st.out)
}

proof fn lemma_lines_error_sticks(ls: Seq<Seq<char>>, k: int, e: IetError)
    requires
        0 <= k <= ls.len(),
        iet_lines_spec(ls.subrange(0, k)) == Err::<IetState, IetError>(e),
    ensures
        iet_lines_spec(ls) == Err::<IetState, IetError>(e),
    decreases ls.len() - k,
{
    if k < ls.len() {
        assert(ls.subrange(0, k + 1).drop_last() =~= ls.subrange(0, k));
        lemma_lines_error_sticks(ls, k + 1, e);
    } else {
        assert(ls.subrange(0, k) =~= ls);
    }
}

/// Whether reading the script would fail inside the reader (see
/// `iet_input_ok`).
pub fn iet_input_checks(text: &str) -> (ok: bool)
    ensures
        ok == iet_input_ok(text@),
{
    let ls = lines(&chars_of(text));
    if ls.len() >= 0xFFFF_FFFF {
        return false;
    }
    let mut i: usize = 0;
    while i < ls.len()
        invariant
            i <= ls@.len(),
            views(ls@) == lines_spec(text@),
            forall|j: int| 0 <= j < i ==> !line_has_lone_quote(#[trigger] views(ls@)[j]),
        decreases ls@.len() - i,
    {
        let line = trim(&ls[i]);
        assert(views(ls@)[i as int] == ls@[i as int]@);
        if starts_with_str(&line, "[") && ends_with_str(&line, "]") && line.len() >= 2 {
            let inner = slice_of(&line, 1, line.len() - 1);
            let (name, rest) = split_cmd(&inner);
            if eq_str(&name, "if") {
                let r = trim(&rest);
                if starts_with_str(&r, "estimate=") {
                    let v = trim(&trim_start_matches_str(&r, "estimate="));
                    if eq_str(&v, "\"") || eq_str(&v, "'") {
                        return false;
                    }
                }
            }
        }
        i = i + 1;
    }
    true
}

// ------------------------------------------------------------------
// Where an `if` jumps
// ------------------------------------------------------------------

pub open spec fn has_label(out: Seq<CmdV>, name: Seq<char>) -> bool {
    exists|j: int| 0 <= j < out.len() && out[j] == (CmdV::Label { name })
}

/// Every condition's target is a label of the output, or the `else` label
/// of an open block that has no `else` yet; an open block with an `else`
/// has its `else` label in the output.
spec fn targets_ok(st: IetState) -> bool {
    &&& forall|i: int| 0 <= i < st.out.len() && (#[trigger] st.out[i]) is Condition ==> {
        ||| has_label(st.out, st.out[i]->Condition_goto)
        ||| exists|k: int| 0 <= k < st.stack.len() && !(#[trigger] st.stack[k]).has_else
            && st.stack[k].else_label == st.out[i]->Condition_goto
    }
    &&& forall|k: int| 0 <= k < st.stack.len() && (#[trigger] st.stack[k]).has_else ==> has_label(st.out, st.stack[k].else_label)
}

/// `b` adds commands to `a`, none a condition, and keeps the open blocks.
spec fn extends_plain(a: IetState, b: IetState) -> bool {
    &&& b.stack == a.stack
    &&& a.out.len() <= b.out.len()
    &&& b.out.subrange(0, a.out.len() as int) == a.out
    &&& forall|i: int| a.out.len() <= i < b.out.len() ==> !((#[trigger] b.out[i]) is Condition)
}

proof fn lemma_push_plain(st: IetState, c: CmdV)
    requires
        !(c is Condition),
    ensures
        extends_plain(st, push_out(st, c)),
{
    assert(push_out(st, c).out.subrange(0, st.out.len() as int) =~= st.out);
}

proof fn lemma_calllua_plain(a: Map<Seq<char>, Seq<char>>)
    ensures
        calllua_iet_spec(a) matches Some(cmds) ==> forall|i: int| 0 <= i < cmds.len() ==> !((#[trigger] cmds[i]) is Condition),
{
}

proof fn lemma_plain_ok(a: IetState, b: IetState)
    requires
        targets_ok(a),
        extends_plain(a, b),
    ensures
        targets_ok(b),
{
    assert forall|j: int| 0 <= j < a.out.len() implies b.out[j] == a.out[j] by {
        assert(b.out[j] == b.out.subrange(0, a.out.len() as int)[j]);
    }
    assert forall|i: int| 0 <= i < b.out.len() && (#[trigger] b.out[i]) is Condition implies {
        ||| has_label(b.out, b.out[i]->Condition_goto)
        ||| exists|k: int| 0 <= k < b.stack.len() && !(#[trigger] b.stack[k]).has_else
            && b.stack[k].else_label == b.out[i]->Condition_goto
    } by {
        assert(i < a.out.len());
        assert(a.out[i] is Condition);
        if has_label(a.out, a.out[i]->Condition_goto) {
            let j = choose|j: int| 0 <= j < a.out.len() && a.out[j] == (CmdV::Label { name: a.out[i]->Condition_goto });
            assert(b.out[j] == a.out[j]);
        }
    }
    assert forall|k: int| 0 <= k < b.stack.len() && (#[trigger] b.stack[k]).has_else implies has_label(b.out, b.stack[k].else_label) by {
        let j = choose|j: int| 0 <= j < a.out.len() && a.out[j] == (CmdV::Label { name: a.stack[k].else_label });
        assert(b.out[j] == a.out[j]);
    }
}

proof fn lemma_flow_plain(st: IetState, name: Seq<char>, rest: Seq<char>)
    ensures
        cmd_flow_spec(st, name, rest) matches Some(Ok(st2)) ==> extends_plain(st, st2),
{
    if let Some(Ok(st2)) = cmd_flow_spec(st, name, rest) {
        if st2 == st {
            assert(st.out.subrange(0, st.out.len() as int) =~= st.out);
        } else {
            assert(st2 == push_out(st, st2.out.last()));
            lemma_push_plain(st, st2.out.last());
        }
    }
}

proof fn lemma_misc_plain(st: IetState, name: Seq<char>, rest: Seq<char>)
    ensures
        cmd_misc_spec(st, name, rest) matches Some(Ok(st2)) ==> extends_plain(st, st2),
{
    if let Some(Ok(st2)) = cmd_misc_spec(st, name, rest) {
        if st2 == st {
            assert(st.out.subrange(0, st.out.len() as int) =~= st.out);
        } else if name == "calllua"@ {
            let a = parse_attrs_spec(rest);
            lemma_calllua_plain(a);
            let cmds = calllua_iet_spec(a)->0;
            assert(st2.out == st.out + cmds);
            assert(st2.out.subrange(0, st.out.len() as int) =~= st.out);
            assert forall|i: int| st.out.len() <= i < st2.out.len() implies !((#[trigger] st2.out[i]) is Condition) by {
                assert(st2.out[i] == cmds[i - st.out.len()]);
            }
        } else {
            assert(st2 == push_out(st, st2.out.last()));
            lemma_push_plain(st, st2.out.last());
        }
    }
}

proof fn lemma_engine_plain(st: IetState, name: Seq<char>, rest: Seq<char>)
    ensures
        cmd_engine_spec(st, name, rest) matches Some(Ok(st2)) ==> extends_plain(st, st2),
{
    if let Some(Ok(st2)) = cmd_engine_spec(st, name, rest) {
        assert(st2 == push_out(st, st2.out.last()));
        lemma_push_plain(st, st2.out.last());
    }
}

proof fn lemma_other_plain(st: IetState, name: Seq<char>, rest: Seq<char>)
    ensures
        extends_plain(st, cmd_other_spec(st, name, rest)),
{
    let st2 = cmd_other_spec(st, name, rest);
    if st2 == st {
        assert(st.out.subrange(0, st.out.len() as int) =~= st.out);
    } else {
        assert(st2 == push_out(st, st2.out.last()));
        lemma_push_plain(st, st2.out.last());
    }
}

proof fn lemma_if_ok(st: IetState, name: Seq<char>, rest: Seq<char>)
    requires
        targets_ok(st),
    ensures
        cmd_if_spec(st, name, rest) matches Some(Ok(st2)) ==> targets_ok(st2),
{
    if let Some(Ok(st2)) = cmd_if_spec(st, name, rest) {
        if name == "if"@ {
            if st2.out == st.out {
                assert(st2.stack == st.stack);
            } else {
                let n = st.out.len() as int;
                let g = st2.out[n]->Condition_goto;
                assert(st2.stack.last().else_label == g && !st2.stack.last().has_else);
                assert forall|j: int| 0 <= j < n implies st2.out[j] == st.out[j] by {}
                assert forall|k: int| 0 <= k < st.stack.len() implies st2.stack[k] == st.stack[k] by {}
                assert forall|i: int| 0 <= i < st2.out.len() && (#[trigger] st2.out[i]) is Condition implies {
                    ||| has_label(st2.out, st2.out[i]->Condition_goto)
                    ||| exists|k: int| 0 <= k < st2.stack.len() && !(#[trigger] st2.stack[k]).has_else
                        && st2.stack[k].else_label == st2.out[i]->Condition_goto
                } by {
                    if i == n {
                        assert(!st2.stack[st2.stack.len() - 1].has_else && st2.stack[st2.stack.len() - 1].else_label == g);
                    } else {
                        assert(st.out[i] is Condition);
                        if has_label(st.out, st.out[i]->Condition_goto) {
                            let j = choose|j: int| 0 <= j < st.out.len() && st.out[j] == (CmdV::Label { name: st.out[i]->Condition_goto });
                            assert(st2.out[j] == st.out[j]);
                        } else {
                            let k = choose|k: int| 0 <= k < st.stack.len() && !(#[trigger] st.stack[k]).has_else
                                && st.stack[k].else_label == st.out[i]->Condition_goto;
                            assert(st2.stack[k] == st.stack[k]);
                        }
                    }
                }
                assert forall|k: int| 0 <= k < st2.stack.len() && (#[trigger] st2.stack[k]).has_else implies has_label(st2.out, st2.stack[k].else_label) by {
                    assert(k < st.stack.len());
                    let j = choose|j: int| 0 <= j < st.out.len() && st.out[j] == (CmdV::Label { name: st.stack[k].else_label });
                    assert(st2.out[j] == st.out[j]);
                }
            }
        } else if name == "else"@ {
            let f = st.stack.last();
            let n = st.out.len() as int;
            let top = st.stack.len() - 1;
            assert(st2.out[n + 1] == (CmdV::Label { name: f.else_label }));
            assert(has_label(st2.out, f.else_label));
            assert forall|j: int| 0 <= j < n implies st2.out[j] == st.out[j] by {}
            assert forall|i: int| 0 <= i < st2.out.len() && (#[trigger] st2.out[i]) is Condition implies {
                ||| has_label(st2.out, st2.out[i]->Condition_goto)
                ||| exists|k: int| 0 <= k < st2.stack.len() && !(#[trigger] st2.stack[k]).has_else
                    && st2.stack[k].else_label == st2.out[i]->Condition_goto
            } by {
                assert(i < n);
                assert(st.out[i] is Condition);
                if has_label(st.out, st.out[i]->Condition_goto) {
                    let j = choose|j: int| 0 <= j < st.out.len() && st.out[j] == (CmdV::Label { name: st.out[i]->Condition_goto });
                    assert(st2.out[j] == st.out[j]);
                } else {
                    let k = choose|k: int| 0 <= k < st.stack.len() && !(#[trigger] st.stack[k]).has_else
                        && st.stack[k].else_label == st.out[i]->Condition_goto;
                    if k != top {
                        assert(st2.stack[k] == st.stack[k]);
                    }
                }
            }
            assert forall|k: int| 0 <= k < st2.stack.len() && (#[trigger] st2.stack[k]).has_else implies has_label(st2.out, st2.stack[k].else_label) by {
                if k != top {
                    assert(st2.stack[k] == st.stack[k]);
                    let j = choose|j: int| 0 <= j < st.out.len() && st.out[j] == (CmdV::Label { name: st.stack[k].else_label });
                    assert(st2.out[j] == st.out[j]);
                }
            }
        } else {
            let f = st.stack.last();
            let n = st.out.len() as int;
            let top = st.stack.len() - 1;
            assert forall|j: int| 0 <= j < n implies st2.out[j] == st.out[j] by {}
            assert(has_label(st2.out, f.else_label)) by {
                if !f.has_else {
                    assert(st2.out[n] == (CmdV::Label { name: f.else_label }));
                } else {
                    assert(st.stack[top].has_else);
                    let j = choose|j: int| 0 <= j < st.out.len() && st.out[j] == (CmdV::Label { name: st.stack[top].else_label });
                    assert(st2.out[j] == st.out[j]);
                }
            }
            assert forall|i: int| 0 <= i < st2.out.len() && (#[trigger] st2.out[i]) is Condition implies {
                ||| has_label(st2.out, st2.out[i]->Condition_goto)
                ||| exists|k: int| 0 <= k < st2.stack.len() && !(#[trigger] st2.stack[k]).has_else
                    && st2.stack[k].else_label == st2.out[i]->Condition_goto
            } by {
                assert(i < n);
                assert(st.out[i] is Condition);
                if has_label(st.out, st.out[i]->Condition_goto) {
                    let j = choose|j: int| 0 <= j < st.out.len() && st.out[j] == (CmdV::Label { name: st.out[i]->Condition_goto });
                    assert(st2.out[j] == st.out[j]);
                } else {
                    let k = choose|k: int| 0 <= k < st.stack.len() && !(#[trigger] st.stack[k]).has_else
                        && st.stack[k].else_label == st.out[i]->Condition_goto;
                    if k != top {
                        assert(st2.stack[k] == st.stack[k]);
                    }
                }
            }
            assert forall|k: int| 0 <= k < st2.stack.len() && (#[trigger] st2.stack[k]).has_else implies has_label(st2.out, st2.stack[k].else_label) by {
                assert(st2.stack[k] == st.stack[k]);
                let j = choose|j: int| 0 <= j < st.out.len() && st.out[j] == (CmdV::Label { name: st.stack[k].else_label });
                assert(st2.out[j] == st.out[j]);
            }
        }
    }
}

proof fn lemma_line_ok(st: IetState, raw: Seq<char>)
    requires
        targets_ok(st),
    ensures
        iet_line_spec(st, raw) matches Ok(st2) ==> targets_ok(st2),
{
    if let Ok(st2) = iet_line_spec(st, raw) {
        let line = trim_spec(raw);
        if is_passive_line(line) || !is_cmd_line(line) || line.len() < 2 {
            if st2 != st {
                assert(st2 == push_out(st, st2.out.last()));
                lemma_push_plain(st, st2.out.last());
                lemma_plain_ok(st, st2);
            }
        } else {
            let (name, rest) = split_cmd_spec(line.subrange(1, line.len() - 1));
            lemma_flow_plain(st, name, rest);
            lemma_misc_plain(st, name, rest);
            lemma_engine_plain(st, name, rest);
            lemma_other_plain(st, name, rest);
            lemma_if_ok(st, name, rest);
            if cmd_flow_spec(st, name, rest) is Some {
                lemma_plain_ok(st, st2);
            } else if cmd_misc_spec(st, name, rest) is Some {
                lemma_plain_ok(st, st2);
            } else if cmd_if_spec(st, name, rest) is Some {
            } else {
                lemma_plain_ok(st, st2);
            }
        }
    }
}

proof fn lemma_lines_ok(ls: Seq<Seq<char>>)
    ensures
        iet_lines_spec(ls) matches Ok(st) ==> targets_ok(st),
    decreases ls.len(),
{
    if ls.len() > 0 {
        lemma_lines_ok(ls.drop_last());
        if let Ok(st) = iet_lines_spec(ls.drop_last()) {
            lemma_line_ok(st, ls.last());
        }
    }
}

proof fn lemma_drawbg_not_flow(st: IetState, rest: Seq<char>)
    ensures
        cmd_flow_spec(st, "DrawBG"@, rest) is None,
{
    reveal_strlit("CallScript");
    assert("CallScript"@.len() == 10);
    reveal_strlit("GetLocalFlag");
    assert("GetLocalFlag"@.len() == 12);
    reveal_strlit("LoadValueFromLocalWork");
    assert("LoadValueFromLocalWork"@.len() == 22);
    reveal_strlit("SetGlobalFlag");
    assert("SetGlobalFlag"@.len() == 13);
    reveal_strlit("SetValidityOfLoading");
    assert("SetValidityOfLoading"@.len() == 20);
    reveal_strlit("SetValidityOfSaving");
    assert("SetValidityOfSaving"@.len() == 19);
    reveal_strlit("StoreValueToLocalWork");
    assert("StoreValueToLocalWork"@.len() == 21);
    reveal_strlit("TerminateExecutionOfScript");
    assert("TerminateExecutionOfScript"@.len() == 26);
    reveal_strlit("call");
    assert("call"@.len() == 4);
    reveal_strlit("jump");
    assert("jump"@.len() == 4);
    reveal_strlit("return");
    assert("return"@.len() == 6);
    reveal_strlit("stop");
    assert("stop"@.len() == 4);
    reveal_strlit("wait");
    assert("wait"@.len() == 4);
    reveal_strlit("wt");
    assert("wt"@.len() == 2);
    reveal_strlit("wt0");
    assert("wt0"@.len() == 3);
    reveal_strlit("DrawBG");
    assert("DrawBG"@.len() == 6);
    assert("return"@[0] != "DrawBG"@[0]);
}

proof fn lemma_drawbg_not_misc(st: IetState, rest: Seq<char>)
    ensures
        cmd_misc_spec(st, "DrawBG"@, rest) is None,
{
    reveal_strlit("allkeystart");
    assert("allkeystart"@.len() == 11);
    reveal_strlit("allkeystop");
    assert("allkeystop"@.len() == 10);
    reveal_strlit("btn_attack");
    assert("btn_attack"@.len() == 10);
    reveal_strlit("btn_start");
    assert("btn_start"@.len() == 9);
    reveal_strlit("btnoff");
    assert("btnoff"@.len() == 6);
    reveal_strlit("btnon");
    assert("btnon"@.len() == 5);
    reveal_strlit("btnstat");
    assert("btnstat"@.len() == 7);
    reveal_strlit("calllua");
    assert("calllua"@.len() == 7);
    reveal_strlit("key_kill");
    assert("key_kill"@.len() == 8);
    reveal_strlit("key_start");
    assert("key_start"@.len() == 9);
    reveal_strlit("lyc");
    assert("lyc"@.len() == 3);
    reveal_strlit("lydel");
    assert("lydel"@.len() == 5);
    reveal_strlit("lyevent");
    assert("lyevent"@.len() == 7);
    reveal_strlit("msg_show");
    assert("msg_show"@.len() == 8);
    reveal_strlit("quicksave");
    assert("quicksave"@.len() == 9);
    reveal_strlit("save_off");
    assert("save_off"@.len() == 8);
    reveal_strlit("save_on");
    assert("save_on"@.len() == 7);
    reveal_strlit("sys_trans");
    assert("sys_trans"@.len() == 9);
    reveal_strlit("trans");
    assert("trans"@.len() == 5);
    reveal_strlit("var");
    assert("var"@.len() == 3);
    reveal_strlit("yesno");
    assert("yesno"@.len() == 5);
    reveal_strlit("DrawBG");
    assert("DrawBG"@.len() == 6);
    assert("btnoff"@[0] != "DrawBG"@[0]);
}

proof fn lemma_drawbg_not_if(st: IetState, rest: Seq<char>)
    ensures
        cmd_if_spec(st, "DrawBG"@, rest) is None,
{
    reveal_strlit("/if");
    assert("/if"@.len() == 3);
    reveal_strlit("else");
    assert("else"@.len() == 4);
    reveal_strlit("if");
    assert("if"@.len() == 2);
    reveal_strlit("DrawBG");
    assert("DrawBG"@.len() == 6);
}

proof fn lemma_drawbg_engine(st: IetState, rest: Seq<char>)
    ensures
        cmd_engine_spec(st, "DrawBG"@, rest)
            == Some(Ok::<IetState, IetError>(push_out(st, CmdV::SetBg { file: str_or(iet_attr_spec(rest, 0), ""@), transition: None, duration: None }))),
{
    reveal_strlit("GetExecutionMode");
    assert("GetExecutionMode"@.len() == 16);
    reveal_strlit("RegisterTextToHistory");
    assert("RegisterTextToHistory"@.len() == 21);
    reveal_strlit("SEStop");
    assert("SEStop"@.len() == 6);
    reveal_strlit("WaitToFinishVoicePlaying");
    assert("WaitToFinishVoicePlaying"@.len() == 24);
    reveal_strlit("exif");
    assert("exif"@.len() == 4);
    reveal_strlit("DrawBG");
    assert("DrawBG"@.len() == 6);
    assert("SEStop"@[0] != "DrawBG"@[0]);
}

proof fn lemma_word_end_run(s: Seq<char>, i: int, k: int)
    requires
        0 <= i <= k <= s.len(),
        forall|j: int| i <= j < k ==> !is_ws_spec(#[trigger] s[j]),
        k == s.len() || is_ws_spec(s[k]),
    ensures
        word_end(s, i) == k,
    decreases k - i,
{
    if i < k {
        lemma_word_end_run(s, i + 1, k);
    }
}

proof fn lemma_no_newline(s: Seq<char>, i: int)
    requires
        0 <= i,
        forall|j: int| i <= j < s.len() ==> #[trigger] s[j] != '\n',
    ensures
        find_char_from(s, '\n', i) is None,
    decreases s.len() - i,
{
    if i < s.len() {
        lemma_no_newline(s, i + 1);
    }
}

/// The only word of ` f`, for a word `f` without whitespace, is `f`.
proof fn lemma_single_word_attr(f: Seq<char>)
    requires
        f.len() > 0,
        forall|i: int| 0 <= i < f.len() ==> !is_ws_spec(#[trigger] f[i]),
    ensures
        iet_attr_spec(seq![' '] + f, 0) == Some(f),
{
    let r = seq![' '] + f;
    assert(r[1] == f[0]);
    assert(ws_skip(r, 1) == 1);
    assert(ws_skip(r, 0) == 1);
    let t0 = trim_start_spec(r);
    assert(t0 =~= f);
    assert(ws_back(f, f.len() as int) == f.len());
    assert(trim_spec(r) =~= f);
    assert(ws_skip(f, 0) == 0);
    lemma_word_end_run(f, 0, f.len() as int);
    assert(f.subrange(0, f.len() as int) =~= f);
    assert(split_ws_from(f, f.len() as int) =~= Seq::<Seq<char>>::empty());
    assert(split_ws_spec(f) =~= seq![f]);
}

proof fn lemma_drawbg_line(st: IetState, f: Seq<char>)
    requires
        f.len() > 0,
        forall|i: int| 0 <= i < f.len() ==> !is_ws_spec(#[trigger] f[i]),
    ensures
        iet_line_spec(st, "[DrawBG "@ + f + "]"@)
            == Ok::<IetState, IetError>(push_out(st, CmdV::SetBg { file: f, transition: None, duration: None })),
        lines_spec("[DrawBG "@ + f + "]"@) == seq!["[DrawBG "@ + f + "]"@],
{
    reveal_strlit("[DrawBG ");
    reveal_strlit("]");
    reveal_strlit("DrawBG");
    reveal_strlit("//");
    reveal_strlit("/*");
    reveal_strlit("*/");
    reveal_strlit("*");
    reveal_strlit("[");
    reveal_strlit("");
    let line = "[DrawBG "@ + f + "]"@;
    let n = line.len() as int;
    assert(n == 9 + f.len());
    assert(line[0] == '[');
    assert(line[n - 1] == ']');
    assert(ws_skip(line, 0) == 0);
    assert(trim_start_spec(line) =~= line);
    assert(ws_back(line, n) == n);
    assert(trim_spec(line) =~= line);
    assert(line.subrange(0, 1) =~= "["@);
    assert(line.subrange(n - 1, n) =~= "]"@);
    assert(line.subrange(0, 2)[0] == '[');
    assert(!starts_with_spec(line, "//"@));
    assert(!starts_with_spec(line, "/*"@));
    assert(!starts_with_spec(line, "*/"@));
    assert(!starts_with_spec(line, "*"@));
    assert(!is_passive_line(line));
    assert(is_cmd_line(line));
    let inner = line.subrange(1, n - 1);
    assert(inner =~= "DrawBG"@ + (seq![' '] + f));
    assert forall|j: int| 0 <= j < 6 implies !is_ws_spec(#[trigger] inner[j]) by {}
    assert(inner[6] == ' ');
    lemma_word_end_run(inner, 0, 6);
    let rest = seq![' '] + f;
    assert(inner.subrange(0, 6) =~= "DrawBG"@);
    assert(inner.subrange(6, inner.len() as int) =~= rest);
    lemma_drawbg_not_flow(st, rest);
    lemma_drawbg_not_misc(st, rest);
    lemma_drawbg_not_if(st, rest);
    lemma_drawbg_engine(st, rest);
    lemma_single_word_attr(f);
    assert forall|j: int| 0 <= j < line.len() implies #[trigger] line[j] != '\n' by {
        if 8 <= j < n - 1 {
            assert(line[j] == f[j - 8]);
        }
    }
    lemma_no_newline(line, 0);
    assert(lines_spec(line) =~= seq![line]);
}

/// A `[DrawBG f]` line, with `f` one word, sets the background to `f`; a
/// script of that line alone is that one command.
pub proof fn law_drawbg_sets_that_background(st: IetState, f: Seq<char>)
    requires
        f.len() > 0,
        forall|i: int| 0 <= i < f.len() ==> !is_ws_spec(#[trigger] f[i]),
    ensures
        iet_line_spec(st, "[DrawBG "@ + f + "]"@)
            == Ok::<IetState, IetError>(push_out(st, CmdV::SetBg { file: f, transition: None, duration: None })),
        parse_iet_spec("[DrawBG "@ + f + "]"@)
            == Ok::<Seq<CmdV>, IetError>(seq![CmdV::SetBg { file: f, transition: None, duration: None }]),
{
    lemma_drawbg_line(st, f);
    lemma_drawbg_line(iet_start(), f);
    let line = "[DrawBG "@ + f + "]"@;
    let ls = seq![line];
    assert(ls.drop_last() =~= Seq::<Seq<char>>::empty());
    assert(ls.last() == line);
    assert(iet_lines_spec(ls.drop_last()) == Ok::<IetState, IetError>(iet_start()));
    assert(iet_start().out.push(CmdV::SetBg { file: f, transition: None, duration: None })
        =~= seq![CmdV::SetBg { file: f, transition: None, duration: None }]);
}

/// `b` follows `a` by whole commands and whole blocks: it keeps `a`'s
/// output as a prefix and the same open blocks.
pub open spec fn extends_block(a: IetState, b: IetState) -> bool {
    &&& b.stack == a.stack
    &&& a.out.len() <= b.out.len()
    &&& b.out.subrange(0, a.out.len() as int) == a.out
    &&& a.counter <= b.counter
}

/// The shape of an `if` block.  `[if estimate="E"]` puts down the jump on
/// the negated condition to the block's own `else` label, first; where an
/// `[else]` follows the first branch it puts down a jump to the block's own
/// end label and then the `else` label; `[/if]` puts down the `else` label
/// (where there was no `[else]`) and then the end label.  So each `if` has
/// one `else` label and one end label, numbered by its place among the
/// `if`s and so shared with no other block, and the jump over the second
/// branch is there exactly when there is an `[else]`.  `then_end` is the
/// state after the first branch, `else_end` after the second.
pub proof fn law_if_else_shape(
    st: IetState,
    rest: Seq<char>,
    then_end: IetState,
    with_else: bool,
    else_rest: Seq<char>,
    else_end: IetState,
    end_rest: Seq<char>,
)
    requires
        estimate_spec(rest) matches Some(est) && parse_condition_spec(est) is Ok,
        extends_block(cmd_if_spec(st, "if"@, rest)->0->Ok_0, then_end),
        with_else ==> extends_block(cmd_if_spec(then_end, "else"@, else_rest)->0->Ok_0, else_end),
    ensures
        ({
            let id = st.counter;
            let (op, v) = parse_condition_spec(estimate_spec(rest)->0)->Ok_0;
            let s1 = cmd_if_spec(st, "if"@, rest)->0->Ok_0;
            let cond = CmdV::Condition { var: "tmp"@, value: v as i32, operator: op, goto: else_label(id) };
            let first = then_end.out.subrange(s1.out.len() as int, then_end.out.len() as int);
            let last = if with_else { else_end } else { then_end };
            let r = cmd_if_spec(last, "/if"@, end_rest);
            let fin = r->0->Ok_0;
            &&& cmd_if_spec(st, "if"@, rest) is Some && cmd_if_spec(st, "if"@, rest)->0 is Ok
            &&& with_else ==> cmd_if_spec(then_end, "else"@, else_rest) is Some
                && cmd_if_spec(then_end, "else"@, else_rest)->0 is Ok
            &&& r is Some && r->0 is Ok
            &&& fin.stack == st.stack
            &&& id < s1.counter <= fin.counter
            &&& if with_else {
                let s2 = cmd_if_spec(then_end, "else"@, else_rest)->0->Ok_0;
                let second = else_end.out.subrange(s2.out.len() as int, else_end.out.len() as int);
                fin.out == st.out.push(cond) + first
                    + seq![CmdV::Jump { target: endif_label(id) }, CmdV::Label { name: else_label(id) }]
                    + second + seq![CmdV::Label { name: endif_label(id) }]
            } else {
                fin.out == st.out.push(cond) + first
                    + seq![CmdV::Label { name: else_label(id) }, CmdV::Label { name: endif_label(id) }]
            }
        }),
{
    reveal_strlit("if");
    reveal_strlit("else");
    reveal_strlit("/if");
    assert("if"@.len() == 2 && "else"@.len() == 4 && "/if"@.len() == 3);
    let id = st.counter;
    let (op, v) = parse_condition_spec(estimate_spec(rest)->0)->Ok_0;
    let s1 = cmd_if_spec(st, "if"@, rest)->0->Ok_0;
    let cond = CmdV::Condition { var: "tmp"@, value: v as i32, operator: op, goto: else_label(id) };
    let frame = IfFrameV { has_else: false, else_label: else_label(id), endif_label: endif_label(id) };
    assert(s1.stack == st.stack.push(frame));
    assert(s1.out == st.out.push(cond));
    let first = then_end.out.subrange(s1.out.len() as int, then_end.out.len() as int);
    assert(then_end.out =~= s1.out + first);
    assert(then_end.stack.last() == frame);
    if with_else {
        let s2 = cmd_if_spec(then_end, "else"@, else_rest)->0->Ok_0;
        let jl = seq![CmdV::Jump { target: endif_label(id) }, CmdV::Label { name: else_label(id) }];
        assert(s2.out =~= then_end.out + jl);
        assert(s2.stack =~= st.stack.push(IfFrameV { has_else: true, ..frame }));
        let second = else_end.out.subrange(s2.out.len() as int, else_end.out.len() as int);
        assert(else_end.out =~= s2.out + second);
        assert(else_end.stack.last() == IfFrameV { has_else: true, ..frame });
        let fin = cmd_if_spec(else_end, "/if"@, end_rest)->0->Ok_0;
        assert(fin.stack =~= st.stack);
        assert(fin.out =~= st.out.push(cond) + first + jl + second + seq![CmdV::Label { name: endif_label(id) }]);
    } else {
        let fin = cmd_if_spec(then_end, "/if"@, end_rest)->0->Ok_0;
        assert(fin.stack =~= st.stack);
        assert(fin.out =~= st.out.push(cond) + first
            + seq![CmdV::Label { name: else_label(id) }, CmdV::Label { name: endif_label(id) }]);
    }
}

/// Every condition of a script that reads without error jumps to a label
/// of the script: each `if` jumps to its block's `else` label, which the
/// `else` or the `/if` puts in place.
pub proof fn law_if_jumps_land_on_labels(text: Seq<char>)
    ensures
        parse_iet_spec(text) matches Ok(out) ==> forall|i: int| 0 <= i < out.len() && (#[trigger] out[i]) is Condition
            ==> has_label(out, out[i]->Condition_goto),
{
    lemma_lines_ok(lines_spec(text));
}

} // verus!
