//! Numbers that the engine holds as `f32`.
//!
//! The library does no floating-point arithmetic.  A number is carried as
//! the decimal text it was read from, which names the `f32` exactly as
//! `str::parse::<f32>` would produce it, together with an optional scale.
use vstd::prelude::*;
use crate::text::{chars_of, find_char, find_char_spec, is_digit, all_digits, is_digit_spec, tail, slice_of, lemma_find_char_from_bound};

verus! {

/// A number given by its decimal text.
pub enum Real {
    /// The value of the float literal, read as `str::parse::<f32>` reads it.
    Lit(String),
    /// The value of the float literal divided by one hundred.
    Hundredth(String),
}

/// The value of a `Real`, with the text as its characters.
pub enum RealV {
    Lit(Seq<char>),
    Hundredth(Seq<char>),
}

impl View for Real {
    type V = RealV;

    open spec fn view(&self) -> RealV {
        match self {
            Real::Lit(t) => RealV::Lit(t@),
            Real::Hundredth(t) => RealV::Hundredth(t@),
        }
    }
}

impl Real {
    /// The literal `text`, which must be a float literal.
    pub fn lit(text: &str) -> (r: Real)
        ensures
            r matches Real::Lit(t) && t@ == text@,
    {
        Real::Lit(text.to_owned())
    }
}

pub open spec fn ascii_lower(c: char) -> char {
    if 'A' <= c && c <= 'Z' {
        ((c as u32) + 32) as char
    } else {
        c
    }
}

pub open spec fn lower_seq(s: Seq<char>) -> Seq<char> {
    s.map_values(|c: char| ascii_lower(c))
}

pub open spec fn is_sign(c: char) -> bool {
    c == '+' || c == '-'
}

/// The mantissa of a decimal number: digits with at most one `.`, and at
/// least one digit.
pub open spec fn mantissa_ok(m: Seq<char>) -> bool {
    match find_char_spec(m, '.') {
        None => m.len() > 0 && all_digits(m),
        Some(d) => {
            &&& 0 <= d < m.len()
            &&& all_digits(m.subrange(0, d))
            &&& all_digits(m.subrange(d + 1, m.len() as int))
            &&& (d > 0 || d + 1 < m.len())
        },
    }
}

/// An exponent after the `e`: an optional sign, then at least one digit.
pub open spec fn exponent_ok(x: Seq<char>) -> bool {
    let digits = if x.len() > 0 && is_sign(x[0]) { x.drop_first() } else { x };
    digits.len() > 0 && all_digits(digits)
}

/// A decimal number with an optional exponent.
pub open spec fn number_ok(b: Seq<char>) -> bool {
    let lb = lower_seq(b);
    match find_char_spec(lb, 'e') {
        None => mantissa_ok(b),
        Some(e) => 0 <= e < b.len() && mantissa_ok(b.subrange(0, e)) && exponent_ok(b.subrange(e + 1, b.len() as int)),
    }
}

/// The strings that `str::parse::<f32>` accepts: an optional sign, then
/// `inf`, `infinity`, `nan` (in any case) or a decimal number.
pub open spec fn float_lit_spec(s: Seq<char>) -> bool {
    let b = if s.len() > 0 && is_sign(s[0]) { s.drop_first() } else { s };
    let lb = lower_seq(b);
    lb == "inf"@ || lb == "infinity"@ || lb == "nan"@ || number_ok(b)
}

fn lower_vec(v: &[char]) -> (r: Vec<char>)
    ensures
        r@ == lower_seq(v@),
{
    let mut r: Vec<char> = Vec::new();
    let mut i: usize = 0;
    while i < v.len()
        invariant
            i <= v@.len(),
            r@ == lower_seq(v@.subrange(0, i as int)),
        decreases v@.len() - i,
    {
        let c = v[i];
        let l = if 'A' <= c && c <= 'Z' {
            proof {
                assert((c as u32) + 32 <= 'z' as u32);
            }
            ((c as u32 + 32) as u8) as char
        } else {
            c
        };
        assert(l == ascii_lower(c)) by {
            if 'A' <= c && c <= 'Z' {
                assert(((c as u32 + 32) as u8) as char == ((c as u32) + 32) as char);
            }
        }
        r.push(l);
        i = i + 1;
        assert(r@ =~= lower_seq(v@.subrange(0, i as int)));
    }
    assert(v@.subrange(0, v@.len() as int) =~= v@);
    r
}

fn all_digits_exec(v: &[char]) -> (b: bool)
    ensures
        b == all_digits(v@),
{
    let mut i: usize = 0;
    while i < v.len()
        invariant
            i <= v@.len(),
            all_digits(v@.subrange(0, i as int)),
            forall|j: int| 0 <= j < i ==> is_digit_spec(v@[j]),
        decreases v@.len() - i,
    {
        if !is_digit(v[i]) {
            return false;
        }
        i = i + 1;
    }
    true
}

fn mantissa_ok_exec(m: &[char]) -> (b: bool)
    ensures
        b == mantissa_ok(m@),
{
    let n = m.len();
    match find_char(m, '.') {
        None => m.len() > 0 && all_digits_exec(m),
        Some(d) => {
            proof {
                lemma_find_char_from_bound(m@, '.', 0);
            }
            let before = slice_of(m, 0, d);
            let after = tail(m, d + 1);
            all_digits_exec(&before) && all_digits_exec(&after) && (d > 0 || d + 1 < m.len())
        },
    }
}

fn exponent_ok_exec(x: &[char]) -> (b: bool)
    ensures
        b == exponent_ok(x@),
{
    if x.len() > 0 && (x[0] == '+' || x[0] == '-') {
        let d = tail(x, 1);
        assert(d@ =~= x@.drop_first());
        d.len() > 0 && all_digits_exec(&d)
    } else {
        x.len() > 0 && all_digits_exec(x)
    }
}

fn number_ok_exec(b: &[char]) -> (r: bool)
    ensures
        r == number_ok(b@),
{
    let lb = lower_vec(b);
    match find_char(&lb, 'e') {
        None => mantissa_ok_exec(b),
        Some(e) => {
            proof {
                lemma_find_char_from_bound(lb@, 'e', 0);
            }
            let m = slice_of(b, 0, e);
            let x = tail(b, e + 1);
            mantissa_ok_exec(&m) && exponent_ok_exec(&x)
        },
    }
}

/// Whether `str::parse::<f32>` accepts the characters.
pub fn is_float_lit(v: &[char]) -> (r: bool)
    ensures
        r == float_lit_spec(v@),
{
    let b = if v.len() > 0 && (v[0] == '+' || v[0] == '-') {
        let t = tail(v, 1);
        assert(t@ =~= v@.drop_first());
        t
    } else {
        crate::text::copy(v)
    };
    let lb = lower_vec(&b);
    let inf = chars_of("inf");
    let infinity = chars_of("infinity");
    let nan = chars_of("nan");
    crate::text::eq(&lb, &inf) || crate::text::eq(&lb, &infinity) || crate::text::eq(&lb, &nan)
        || number_ok_exec(&b)
}

} // verus!
